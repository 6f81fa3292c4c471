use vstd::prelude::*;
use crate::entries::{
    entries_view, find_key, key_seq, lemma_put_view, model_keys, put, put_entry, unique_keys,
    value_at,
};
use crate::subject::{parses_as_url, url_valid};

verus! {

/// A relation, with the URL it points to when it has one.
#[derive(Clone, Debug)]
pub struct Link {
    pub rel: String,
    pub href: Option<String>,
}

/// A discovery document: the subject it describes, its links in source order, and
/// its properties keyed by relation.
#[derive(Clone, Debug)]
pub struct WebFinger {
    pub subject: String,
    pub links: Vec<Link>,
    pub properties: Vec<(String, String)>,
}

/// A modelled link: relation and optional target.
pub type LinkModel = (Seq<char>, Option<Seq<char>>);

/// The model of a document.
pub struct DocModel {
    pub subject: Seq<char>,
    pub links: Seq<LinkModel>,
    pub properties: Seq<(Seq<char>, Seq<char>)>,
}

pub open spec fn opt_view(o: Option<String>) -> Option<Seq<char>> {
    match o {
        Some(s) => Some(s@),
        None => None,
    }
}

impl View for Link {
    type V = LinkModel;

    open spec fn view(&self) -> LinkModel {
        (self.rel@, opt_view(self.href))
    }
}

/// A string seen as its characters.
pub open spec fn string_view() -> spec_fn(String) -> Seq<char> {
    |s: String| s@
}

/// Key/value string pairs seen as character sequences.
pub open spec fn pairs_view(s: Seq<(String, String)>) -> Seq<(Seq<char>, Seq<char>)> {
    entries_view(s, string_view())
}

pub open spec fn links_view(s: Seq<Link>) -> Seq<LinkModel> {
    s.map_values(|l: Link| l@)
}

impl View for WebFinger {
    type V = DocModel;

    open spec fn view(&self) -> DocModel {
        DocModel {
            subject: self.subject@,
            links: links_view(self.links@),
            properties: pairs_view(self.properties@),
        }
    }
}

/// The relation an attribute key stands for: its alias when the table has one, else
/// the key itself.
pub open spec fn rel_for(aliases: Seq<(Seq<char>, Seq<char>)>, k: Seq<char>) -> Seq<char> {
    match value_at(aliases, k) {
        Some(v) => v,
        None => k,
    }
}

/// The links that a list of attributes yields: one for each URL value, in order.
pub open spec fn links_of(
    attrs: Seq<(Seq<char>, Seq<char>)>,
    aliases: Seq<(Seq<char>, Seq<char>)>,
) -> Seq<LinkModel>
    decreases attrs.len(),
{
    if attrs.len() == 0 {
        seq![]
    } else {
        let prev = links_of(attrs.drop_last(), aliases);
        let (k, v) = attrs.last();
        if url_valid(v) {
            prev.push((rel_for(aliases, k), Some(v)))
        } else {
            prev
        }
    }
}

/// The properties that a list of attributes yields: each non-URL value stored under
/// its relation, a later one replacing an earlier one.
pub open spec fn properties_of(
    attrs: Seq<(Seq<char>, Seq<char>)>,
    aliases: Seq<(Seq<char>, Seq<char>)>,
) -> Seq<(Seq<char>, Seq<char>)>
    decreases attrs.len(),
{
    if attrs.len() == 0 {
        seq![]
    } else {
        let prev = properties_of(attrs.drop_last(), aliases);
        let (k, v) = attrs.last();
        if url_valid(v) {
            prev
        } else {
            put(prev, rel_for(aliases, k), v)
        }
    }
}

/// The document built for `subject` from its attributes.
pub open spec fn doc_of(
    subject: Seq<char>,
    attrs: Seq<(Seq<char>, Seq<char>)>,
    aliases: Seq<(Seq<char>, Seq<char>)>,
) -> DocModel {
    DocModel {
        subject,
        links: links_of(attrs, aliases),
        properties: properties_of(attrs, aliases),
    }
}

/// Property keys stay unique however the attributes run.
pub proof fn lemma_properties_unique(
    attrs: Seq<(Seq<char>, Seq<char>)>,
    aliases: Seq<(Seq<char>, Seq<char>)>,
)
    ensures
        unique_keys(properties_of(attrs, aliases)),
    decreases attrs.len(),
{
    if attrs.len() > 0 {
        lemma_properties_unique(attrs.drop_last(), aliases);
        let (k, v) = attrs.last();
        crate::entries::lemma_put_unique(properties_of(attrs.drop_last(), aliases), rel_for(aliases, k), v);
    }
}

impl Link {
    /// A copy of this link.
    pub fn copy(&self) -> (r: Link)
        ensures
            r@ == self@,
    {
        let href = match &self.href {
            Some(h) => Some(h.clone()),
            None => None,
        };
        Link { rel: self.rel.clone(), href }
    }
}

impl WebFinger {
    /// A copy of this document.
    pub fn copy(&self) -> (r: WebFinger)
        ensures
            r@ == self@,
    {
        let mut links: Vec<Link> = Vec::new();
        let mut i: usize = 0;
        while i < self.links.len()
            invariant
                i <= self.links@.len(),
                links@.len() == i,
                forall|j: int| 0 <= j < i ==> links@[j]@ == self.links@[j]@,
            decreases self.links@.len() - i,
        {
            links.push(self.links[i].copy());
            i = i + 1;
        }
        let properties = copy_pairs(&self.properties);
        assert(links_view(links@) =~= links_view(self.links@));
        WebFinger { subject: self.subject.clone(), links, properties }
    }
}

/// A copy of a list of key/value string pairs.
pub fn copy_pairs(v: &Vec<(String, String)>) -> (r: Vec<(String, String)>)
    ensures
        pairs_view(r@) == pairs_view(v@),
{
    let mut out: Vec<(String, String)> = Vec::new();
    let mut j: usize = 0;
    while j < v.len()
        invariant
            j <= v@.len(),
            out@.len() == j,
            forall|m: int| 0 <= m < j ==> out@[m].0@ == v@[m].0@ && out@[m].1@ == v@[m].1@,
        decreases v@.len() - j,
    {
        out.push((v[j].0.clone(), v[j].1.clone()));
        j = j + 1;
    }
    assert(pairs_view(out@) =~= pairs_view(v@));
    out
}

/// The relation that attribute `key` stands for under `urn_aliases`.
pub fn resolve_alias(urn_aliases: &Vec<(String, String)>, key: String) -> (r: String)
    ensures
        r@ == rel_for(pairs_view(urn_aliases@), key@),
{
    assert(model_keys(pairs_view(urn_aliases@)) =~= key_seq(urn_aliases@));
    let i = find_key(urn_aliases, &key);
    if i < urn_aliases.len() {
        urn_aliases[i].1.clone()
    } else {
        key
    }
}

/// Builds the document for `subject`: each attribute whose value is a URL becomes a
/// link under its relation, every other one a property.
pub fn create_webfinger(
    subject: String,
    user_data: Vec<(String, String)>,
    urn_aliases: &Vec<(String, String)>,
) -> (r: WebFinger)
    ensures
        r@ == doc_of(subject@, pairs_view(user_data@), pairs_view(urn_aliases@)),
{
    let ghost attrs = pairs_view(user_data@);
    let ghost aliases = pairs_view(urn_aliases@);
    let mut links: Vec<Link> = Vec::new();
    let mut properties: Vec<(String, String)> = Vec::new();
    let n = user_data.len();
    let mut i: usize = 0;
    while i < n
        invariant
            n == user_data@.len(),
            i <= n,
            attrs == pairs_view(user_data@),
            aliases == pairs_view(urn_aliases@),
            links_view(links@) == links_of(attrs.take(i as int), aliases),
            pairs_view(properties@) == properties_of(attrs.take(i as int), aliases),
        decreases n - i,
    {
        assert(attrs.take(i + 1).drop_last() =~= attrs.take(i as int));
        let key = user_data[i].0.clone();
        let value = user_data[i].1.clone();
        let urn = resolve_alias(urn_aliases, key);
        if parses_as_url(value.as_str()) {
            links.push(Link { rel: urn, href: Some(value) });
            assert(links_view(links@) =~= links_of(attrs.take(i + 1), aliases));
        } else {
            let ghost before = properties@;
            proof {
                lemma_put_view(before, urn, value, string_view());
            }
            put_entry(&mut properties, urn, value);
        }
        i = i + 1;
    }
    assert(attrs.take(n as int) =~= attrs);
    WebFinger { subject, links, properties }
}

} // verus!
