use vstd::prelude::*;
use crate::document::{
    copy_pairs, create_webfinger, doc_of, pairs_view, DocModel, WebFinger,
};
use crate::entries::{entries_view, put_all, lemma_put_unique, lemma_put_view, put, put_entry, unique_keys};
use crate::subject::{acct_prefix, normalize_subject, normalized, ValidationError};

verus! {

/// A tenant as its configuration describes it: a domain, its users with their
/// attributes, and whether any account on the domain is answered with the fallback
/// identity `openid`.
pub struct TenantConfig {
    pub domain: String,
    pub users: Vec<(String, Vec<(String, String)>)>,
    pub global: bool,
    pub openid: Option<String>,
}

/// A compiled tenant: its documents keyed by subject.
pub struct TenantData {
    pub domain: String,
    pub global: bool,
    pub fingers: Vec<(String, WebFinger)>,
}

/// The compiled tenants, keyed by tenant name.
pub struct Config {
    pub tenants: Vec<(String, TenantData)>,
}

/// A user's attributes, modelled.
pub type AttrsModel = Seq<(Seq<char>, Seq<char>)>;

pub struct TenantConfigModel {
    pub domain: Seq<char>,
    pub users: Seq<(Seq<char>, AttrsModel)>,
    pub global: bool,
    pub openid: Option<Seq<char>>,
}

pub struct TenantModel {
    pub domain: Seq<char>,
    pub global: bool,
    pub fingers: Seq<(Seq<char>, DocModel)>,
}

pub open spec fn attrs_view() -> spec_fn(Vec<(String, String)>) -> AttrsModel {
    |v: Vec<(String, String)>| pairs_view(v@)
}

pub open spec fn doc_view() -> spec_fn(WebFinger) -> DocModel {
    |d: WebFinger| d@
}

impl View for TenantConfig {
    type V = TenantConfigModel;

    open spec fn view(&self) -> TenantConfigModel {
        TenantConfigModel {
            domain: self.domain@,
            users: entries_view(self.users@, attrs_view()),
            global: self.global,
            openid: crate::document::opt_view(self.openid),
        }
    }
}

impl View for TenantData {
    type V = TenantModel;

    open spec fn view(&self) -> TenantModel {
        TenantModel {
            domain: self.domain@,
            global: self.global,
            fingers: entries_view(self.fingers@, doc_view()),
        }
    }
}

pub open spec fn tenant_view() -> spec_fn(TenantData) -> TenantModel {
    |t: TenantData| t@
}

impl View for Config {
    type V = Seq<(Seq<char>, TenantModel)>;

    open spec fn view(&self) -> Seq<(Seq<char>, TenantModel)> {
        entries_view(self.tenants@, tenant_view())
    }
}

/// The attribute key under which a tenant's fallback identity is published.
pub open spec fn openid_key() -> Seq<char> {
    seq!['o', 'p', 'e', 'n', 'i', 'd']
}

/// The reserved subject `acct:*@<domain>` of a domain's wildcard document.
pub open spec fn wildcard_of(domain: Seq<char>) -> Seq<char> {
    acct_prefix() + seq!['*', '@'] + domain
}

/// Whether every user identifier normalizes.
pub open spec fn users_valid(users: Seq<(Seq<char>, AttrsModel)>) -> bool {
    forall|i: int| 0 <= i < users.len() ==> (#[trigger] normalized(users[i].0)).is_some()
}

/// Whether `id` is the first user identifier that does not normalize.
pub open spec fn first_invalid_user(users: Seq<(Seq<char>, AttrsModel)>, id: Seq<char>) -> bool {
    exists|i: int|
        0 <= i < users.len() && users[i].0 == id && normalized(id).is_none() && users_valid(
            users.take(i),
        )
}

/// The documents of the listed users, keyed by normalized subject, a later user
/// replacing an earlier one with the same subject.
pub open spec fn fingers_of(
    users: Seq<(Seq<char>, AttrsModel)>,
    aliases: AttrsModel,
) -> Seq<(Seq<char>, DocModel)>
    decreases users.len(),
{
    if users.len() == 0 {
        seq![]
    } else {
        let (u, attrs) = users.last();
        let s = normalized(u).unwrap();
        put(fingers_of(users.drop_last(), aliases), s, doc_of(s, attrs, aliases))
    }
}

/// A tenant's documents: its users', and for a global tenant with a fallback
/// identity the wildcard document built from `{openid: <identity>}`.
pub open spec fn tenant_fingers(t: TenantConfigModel, aliases: AttrsModel) -> Seq<(Seq<char>, DocModel)> {
    let base = fingers_of(t.users, aliases);
    if t.global && t.openid.is_some() {
        let w = wildcard_of(t.domain);
        put(base, w, doc_of(w, seq![(openid_key(), t.openid.unwrap())], aliases))
    } else {
        base
    }
}

/// The compiled form of a tenant, or `None` when one of its users is invalid.
pub open spec fn compiled(t: TenantConfigModel, aliases: AttrsModel) -> Option<TenantModel> {
    if users_valid(t.users) {
        Some(TenantModel { domain: t.domain, global: t.global, fingers: tenant_fingers(t, aliases) })
    } else {
        None
    }
}

/// Whether `e` reports the first invalid user of the first tenant that fails to compile.
pub open spec fn reports_first_failure(
    tenants: Seq<(Seq<char>, TenantConfigModel)>,
    aliases: AttrsModel,
    id: Seq<char>,
) -> bool {
    exists|i: int|
        0 <= i < tenants.len() && #[trigger] compiled(tenants[i].1, aliases).is_none()
            && first_invalid_user(tenants[i].1.users, id) && forall|k: int|
            0 <= k < i ==> (#[trigger] compiled(tenants[k].1, aliases)).is_some()
}

/// Whether every tenant compiles.
pub open spec fn tenants_valid(tenants: Seq<(Seq<char>, TenantConfigModel)>, aliases: AttrsModel) -> bool {
    forall|i: int| 0 <= i < tenants.len() ==> (#[trigger] compiled(tenants[i].1, aliases)).is_some()
}

/// Whether `out` holds each tenant's compiled form under its name, in order.
pub open spec fn compiled_all(
    tenants: Seq<(Seq<char>, TenantConfigModel)>,
    aliases: AttrsModel,
    out: Seq<(Seq<char>, TenantModel)>,
) -> bool {
    out.len() == tenants.len() && forall|i: int|
        0 <= i < tenants.len() ==> (#[trigger] out[i]).0 == tenants[i].0 && compiled(
            tenants[i].1,
            aliases,
        ) == Some(out[i].1)
}

/// Subjects stay unique however the users run.
pub proof fn lemma_fingers_unique(users: Seq<(Seq<char>, AttrsModel)>, aliases: AttrsModel)
    ensures
        unique_keys(fingers_of(users, aliases)),
    decreases users.len(),
{
    if users.len() > 0 {
        lemma_fingers_unique(users.drop_last(), aliases);
        let (u, attrs) = users.last();
        let s = normalized(u).unwrap();
        lemma_put_unique(fingers_of(users.drop_last(), aliases), s, doc_of(s, attrs, aliases));
    }
}

/// A compiled tenant holds at most one document per subject, and a global tenant
/// with a fallback identity holds its wildcard document.
pub proof fn lemma_compiled_unique(t: TenantConfigModel, aliases: AttrsModel)
    requires
        compiled(t, aliases).is_some(),
    ensures
        unique_keys(compiled(t, aliases).unwrap().fingers),
        t.global && t.openid.is_some() ==> crate::entries::value_at(
            compiled(t, aliases).unwrap().fingers,
            wildcard_of(t.domain),
        ) == Some(
            doc_of(wildcard_of(t.domain), seq![(openid_key(), t.openid.unwrap())], aliases),
        ),
{
    lemma_fingers_unique(t.users, aliases);
    if t.global && t.openid.is_some() {
        let w = wildcard_of(t.domain);
        lemma_put_unique(
            fingers_of(t.users, aliases),
            w,
            doc_of(w, seq![(openid_key(), t.openid.unwrap())], aliases),
        );
    }
}

/// A tenant with no users that is not global compiles, without error, to no
/// documents.
pub proof fn lemma_empty_tenant(t: TenantConfigModel, aliases: AttrsModel)
    requires
        t.users.len() == 0,
        !t.global,
    ensures
        compiled(t, aliases) == Some(
            TenantModel { domain: t.domain, global: false, fingers: Seq::empty() },
        ),
{
    assert(fingers_of(t.users, aliases) =~= Seq::empty());
}

/// With no configuration sources there is nothing that can fail, and the result
/// holds no tenants.
pub proof fn lemma_no_sources(aliases: AttrsModel)
    ensures
        tenants_valid(Seq::empty(), aliases),
        forall|out: Seq<(Seq<char>, TenantModel)>|
            compiled_all(Seq::empty(), aliases, out) ==> out.len() == 0,
{
}

/// The reserved wildcard subject `acct:*@<domain>`.
pub fn wildcard_subject(domain: &str) -> (r: String)
    ensures
        r@ == wildcard_of(domain@),
{
    proof {
        reveal_strlit("acct:*@");
    }
    let mut w = String::from_str("acct:*@");
    w.append(domain);
    assert(w@ =~= wildcard_of(domain@));
    w
}

/// Compiles one tenant: normalizes each user, builds each document, and adds the
/// wildcard document of a global tenant that has a fallback identity. Fails on the
/// first user identifier that does not normalize.
pub fn compile_tenant(cfg: &TenantConfig, urn_aliases: &Vec<(String, String)>) -> (r: Result<
    TenantData,
    ValidationError,
>)
    ensures
        match r {
            Ok(t) => compiled(cfg@, pairs_view(urn_aliases@)) == Some(t@),
            Err(e) => compiled(cfg@, pairs_view(urn_aliases@)).is_none() && first_invalid_user(
                cfg@.users,
                e.identifier@,
            ),
        },
{
    let ghost users = cfg@.users;
    let ghost aliases = pairs_view(urn_aliases@);
    let mut fingers: Vec<(String, WebFinger)> = Vec::new();
    let n = cfg.users.len();
    let mut i: usize = 0;
    while i < n
        invariant
            n == cfg.users@.len(),
            i <= n,
            users == cfg@.users,
            aliases == pairs_view(urn_aliases@),
            users_valid(users.take(i as int)),
            entries_view(fingers@, doc_view()) == fingers_of(users.take(i as int), aliases),
        decreases n - i,
    {
        assert(users.take(i + 1).drop_last() =~= users.take(i as int));
        assert(users[i as int].0 == cfg.users@[i as int].0@);
        let subject = match normalize_subject(cfg.users[i].0.as_str()) {
            Ok(s) => s,
            Err(e) => {
                assert(normalized(users[i as int].0).is_none());
                assert(!users_valid(users));
                assert(first_invalid_user(users, e.identifier@));
                return Err(e);
            },
        };
        let attrs = copy_pairs(&cfg.users[i].1);
        let finger = create_webfinger(subject.clone(), attrs, urn_aliases);
        let ghost before = fingers@;
        proof {
            lemma_put_view(before, subject, finger, doc_view());
        }
        put_entry(&mut fingers, subject, finger);
        i = i + 1;
        assert(users_valid(users.take(i as int)));
    }
    assert(users.take(n as int) =~= users);
    if cfg.global {
        match &cfg.openid {
            Some(o) => {
                proof {
                    reveal_strlit("openid");
                }
                assert("openid"@ =~= openid_key());
                let mut data: Vec<(String, String)> = Vec::new();
                data.push((String::from_str("openid"), o.clone()));
                assert(pairs_view(data@) =~= seq![(openid_key(), o@)]);
                let w = wildcard_subject(cfg.domain.as_str());
                let finger = create_webfinger(w.clone(), data, urn_aliases);
                let ghost before = fingers@;
                proof {
                    lemma_put_view(before, w, finger, doc_view());
                }
                put_entry(&mut fingers, w, finger);
            },
            None => {},
        }
    }
    Ok(TenantData { domain: cfg.domain.clone(), global: cfg.global, fingers })
}

pub open spec fn config_view() -> spec_fn(TenantConfig) -> TenantConfigModel {
    |c: TenantConfig| c@
}

/// Compiles every tenant, keeping each under its name in the given order. Fails with
/// the first invalid user of the first tenant that has one.
pub fn process_tenants(
    tenants: Vec<(String, TenantConfig)>,
    urn_aliases: Vec<(String, String)>,
) -> (r: Result<Vec<(String, TenantData)>, ValidationError>)
    ensures
        match r {
            Ok(v) => tenants_valid(entries_view(tenants@, config_view()), pairs_view(urn_aliases@))
                && compiled_all(
                entries_view(tenants@, config_view()),
                pairs_view(urn_aliases@),
                entries_view(v@, tenant_view()),
            ),
            Err(e) => !tenants_valid(entries_view(tenants@, config_view()), pairs_view(urn_aliases@))
                && reports_first_failure(
                entries_view(tenants@, config_view()),
                pairs_view(urn_aliases@),
                e.identifier@,
            ),
        },
{
    let ghost ts = entries_view(tenants@, config_view());
    let ghost aliases = pairs_view(urn_aliases@);
    let mut out: Vec<(String, TenantData)> = Vec::new();
    let n = tenants.len();
    let mut i: usize = 0;
    while i < n
        invariant
            n == tenants@.len(),
            i <= n,
            ts == entries_view(tenants@, config_view()),
            aliases == pairs_view(urn_aliases@),
            forall|k: int| 0 <= k < i ==> (#[trigger] compiled(ts[k].1, aliases)).is_some(),
            compiled_all(ts.take(i as int), aliases, entries_view(out@, tenant_view())),
        decreases n - i,
    {
        assert(ts[i as int].1 == tenants@[i as int].1@);
        assert(ts[i as int].0 == tenants@[i as int].0@);
        match compile_tenant(&tenants[i].1, &urn_aliases) {
            Ok(t) => {
                let ghost tv = t@;
                let ghost prev = entries_view(out@, tenant_view());
                out.push((tenants[i].0.clone(), t));
                assert(entries_view(out@, tenant_view()) =~= prev.push((ts[i as int].0, tv)));
                let ghost now = entries_view(out@, tenant_view());
                assert forall|k: int| 0 <= k < i + 1 implies now[k].0 == ts.take(i + 1)[k].0
                    && compiled(ts.take(i + 1)[k].1, aliases) == Some((#[trigger] now[k]).1) by {
                    if k < i {
                        assert(ts.take(i as int)[k] == ts.take(i + 1)[k]);
                        assert(prev[k] == now[k]);
                        assert(compiled(ts.take(i as int)[k].1, aliases) == Some(prev[k].1));
                    } else {
                        assert(compiled(ts[i as int].1, aliases) == Some(tv));
                    }
                }
                assert(now.len() == i + 1);
                assert(ts.take(i + 1).len() == i + 1);
                assert(compiled_all(ts.take(i + 1), aliases, now));
            },
            Err(e) => {
                assert(reports_first_failure(ts, aliases, e.identifier@));
                return Err(e);
            },
        }
        assert(ts.take(i + 1).drop_last() =~= ts.take(i as int));
        i = i + 1;
    }
    assert(ts.take(n as int) =~= ts);
    Ok(out)
}

/// Adds the tenants of one configuration source to those gathered so far; a tenant
/// whose name is already there replaces the earlier one.
pub fn merge_tenant_source(tenants: &mut Vec<(String, TenantConfig)>, source: Vec<(String, TenantConfig)>)
    ensures
        entries_view(final(tenants)@, config_view()) == put_all(
            entries_view(old(tenants)@, config_view()),
            entries_view(source@, config_view()),
        ),
{
    let ghost start = entries_view(tenants@, config_view());
    let ghost orig = source@;
    let ghost src = entries_view(source@, config_view());
    let mut rest = source;
    let ghost mut c: int = 0;
    while rest.len() > 0
        invariant
            0 <= c <= orig.len(),
            rest@ == orig.skip(c),
            src == entries_view(orig, config_view()),
            entries_view(tenants@, config_view()) == put_all(start, src.take(c)),
        decreases rest@.len(),
    {
        let (k, v) = rest.remove(0);
        assert(src.take(c + 1).drop_last() =~= src.take(c));
        assert(src[c] == (k@, v@));
        let ghost before = tenants@;
        proof {
            lemma_put_view(before, k, v, config_view());
        }
        put_entry(tenants, k, v);
        proof {
            c = c + 1;
        }
        assert(rest@ =~= orig.skip(c));
    }
    assert(src.take(c) =~= src);
}

impl Config {
    /// Compiles the tenants of the configuration sources against the alias table.
    /// With no sources the result holds no tenants.
    pub fn load(
        tenants: Vec<(String, TenantConfig)>,
        urn_aliases: Vec<(String, String)>,
    ) -> (r: Result<Config, ValidationError>)
        ensures
            match r {
                Ok(c) => tenants_valid(entries_view(tenants@, config_view()), pairs_view(urn_aliases@))
                    && compiled_all(entries_view(tenants@, config_view()), pairs_view(urn_aliases@), c@),
                Err(e) => !tenants_valid(entries_view(tenants@, config_view()), pairs_view(urn_aliases@))
                    && reports_first_failure(
                    entries_view(tenants@, config_view()),
                    pairs_view(urn_aliases@),
                    e.identifier@,
                ),
            },
    {
        match process_tenants(tenants, urn_aliases) {
            Ok(v) => Ok(Config { tenants: v }),
            Err(e) => Err(e),
        }
    }
}

} // verus!
