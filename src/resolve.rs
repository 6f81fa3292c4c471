use vstd::prelude::*;
use crate::document::{DocModel, WebFinger};
use crate::entries::{
    find_key, first_index, key_seq, lemma_first_index, lemma_first_index_at, model_keys, unique_keys,
    value_at,
};
use crate::document::{links_of, properties_of, rel_for};
use crate::subject::{acct_prefix, extract_domain_from_resource, resource_domain, url_valid};
use crate::text::lemma_first_from_at;
use crate::tenant::{
    compiled, lemma_compiled_unique, openid_key, wildcard_of, wildcard_subject, Config,
    TenantConfigModel, TenantModel,
};

verus! {

/// No document answers the query.
pub struct NotFound;

/// The domains of the tenants, in order.
pub open spec fn tenant_domains(ts: Seq<(Seq<char>, TenantModel)>) -> Seq<Seq<char>> {
    ts.map_values(|e: (Seq<char>, TenantModel)| e.1.domain)
}

/// The index of the tenant that serves `domain`: the first one on it.
pub open spec fn tenant_index(ts: Seq<(Seq<char>, TenantModel)>, domain: Seq<char>) -> int {
    first_index(tenant_domains(ts), domain, 0)
}

/// `d` answering for `subject` instead of its own subject.
pub open spec fn personalized(d: DocModel, subject: Seq<char>) -> DocModel {
    DocModel { subject, links: d.links, properties: d.properties }
}

/// The answer to a query for `resource` on `domain`: the tenant's document for that
/// exact subject; else, for a global tenant and an `acct:` resource on the same
/// domain, the wildcard document answering for `resource`; else nothing.
pub open spec fn resolved(
    ts: Seq<(Seq<char>, TenantModel)>,
    resource: Seq<char>,
    domain: Seq<char>,
) -> Option<DocModel> {
    let i = tenant_index(ts, domain);
    if i >= ts.len() {
        None
    } else {
        let t = ts[i].1;
        match value_at(t.fingers, resource) {
            Some(d) => Some(d),
            None => if t.global && resource_domain(resource) == Some(domain) {
                match value_at(t.fingers, wildcard_of(domain)) {
                    Some(w) => Some(personalized(w, resource)),
                    None => None,
                }
            } else {
                None
            },
        }
    }
}

/// The first tenant on a domain is the one that serves it.
pub proof fn lemma_tenant_index(ts: Seq<(Seq<char>, TenantModel)>, domain: Seq<char>, i: int)
    requires
        0 <= i < ts.len(),
        ts[i].1.domain == domain,
        forall|k: int| 0 <= k < i ==> ts[k].1.domain != domain,
    ensures
        tenant_index(ts, domain) == i,
{
    let ds = tenant_domains(ts);
    assert forall|k: int| 0 <= k < i implies ds[k] != domain by {
        assert(ds[k] == ts[k].1.domain);
    }
    lemma_first_index_at(ds, domain, 0, i);
}

/// In entries with unique keys, the value under a key is that of the entry holding it.
pub proof fn lemma_value_at_unique<V>(s: Seq<(Seq<char>, V)>, j: int)
    requires
        unique_keys(s),
        0 <= j < s.len(),
    ensures
        value_at(s, s[j].0) == Some(s[j].1),
{
    let ks = model_keys(s);
    assert forall|k: int| 0 <= k < j implies ks[k] != s[j].0 by {
        assert(ks[k] == s[k].0);
    }
    lemma_first_index_at(ks, s[j].0, 0, j);
}

/// A query for a subject that the domain's tenant holds returns that subject's
/// document unchanged.
pub proof fn lemma_exact_match(
    ts: Seq<(Seq<char>, TenantModel)>,
    domain: Seq<char>,
    i: int,
    j: int,
)
    requires
        0 <= i < ts.len(),
        ts[i].1.domain == domain,
        forall|k: int| 0 <= k < i ==> ts[k].1.domain != domain,
        unique_keys(ts[i].1.fingers),
        0 <= j < ts[i].1.fingers.len(),
    ensures
        resolved(ts, ts[i].1.fingers[j].0, domain) == Some(ts[i].1.fingers[j].1),
{
    lemma_tenant_index(ts, domain, i);
    lemma_value_at_unique(ts[i].1.fingers, j);
}

/// A query on a domain that no tenant serves finds nothing.
pub proof fn lemma_unknown_domain(
    ts: Seq<(Seq<char>, TenantModel)>,
    resource: Seq<char>,
    domain: Seq<char>,
)
    requires
        forall|k: int| 0 <= k < ts.len() ==> ts[k].1.domain != domain,
    ensures
        resolved(ts, resource, domain).is_none(),
{
    let ds = tenant_domains(ts);
    lemma_first_index(ds, domain, 0);
    if tenant_index(ts, domain) < ts.len() {
        assert(ds[tenant_index(ts, domain)] == ts[tenant_index(ts, domain)].1.domain);
    }
}

/// A resource that no tenant on the domain holds, and that is not an `acct:` resource
/// on that same domain (a bare URL, or an account elsewhere), finds nothing, global
/// tenant or not.
pub proof fn lemma_not_wildcard_eligible(
    ts: Seq<(Seq<char>, TenantModel)>,
    resource: Seq<char>,
    domain: Seq<char>,
)
    requires
        resource_domain(resource) != Some(domain),
        forall|k: int|
            0 <= k < ts.len() && ts[k].1.domain == domain ==> value_at(ts[k].1.fingers, resource).is_none(),
    ensures
        resolved(ts, resource, domain).is_none(),
{
    let ds = tenant_domains(ts);
    lemma_first_index(ds, domain, 0);
    let i = tenant_index(ts, domain);
    if i < ts.len() {
        assert(ds[i] == ts[i].1.domain);
    }
}

/// The account `acct:<local>@<domain>` names `domain`, when neither part holds an `@`.
pub proof fn lemma_account_domain(local: Seq<char>, domain: Seq<char>)
    requires
        forall|k: int| 0 <= k < local.len() ==> local[k] != '@',
        forall|k: int| 0 <= k < domain.len() ==> domain[k] != '@',
    ensures
        resource_domain(acct_prefix() + local + seq!['@'] + domain) == Some(domain),
{
    let r = acct_prefix() + local + seq!['@'] + domain;
    let at: int = 5 + local.len() as int;
    assert(r.subrange(0, 5) =~= acct_prefix());
    assert(r[at] == '@');
    assert forall|k: int| 5 <= k < at implies r[k] != '@' by {
        assert(r[k] == local[k - 5]);
    }
    lemma_first_from_at(r, '@', 5, at);
    assert forall|k: int| at + 1 <= k < r.len() implies r[k] != '@' by {
        assert(r[k] == domain[k - at - 1]);
    }
    lemma_first_from_at(r, '@', at + 1, r.len() as int);
    assert(r.subrange(at + 1, r.len() as int) =~= domain);
}

/// On a global tenant with fallback identity `o`, a query for any account
/// `acct:<local>@<domain>` of the tenant's domain that the tenant does not hold
/// returns the wildcard document answering for that account: `o` under the relation
/// of `openid`, as a link when `o` is a URL and as a property otherwise.
pub proof fn lemma_wildcard_answer(
    ts: Seq<(Seq<char>, TenantModel)>,
    i: int,
    cfg: TenantConfigModel,
    aliases: Seq<(Seq<char>, Seq<char>)>,
    local: Seq<char>,
)
    requires
        0 <= i < ts.len(),
        forall|k: int| 0 <= k < i ==> ts[k].1.domain != cfg.domain,
        compiled(cfg, aliases) == Some(ts[i].1),
        cfg.global,
        cfg.openid.is_some(),
        forall|k: int| 0 <= k < local.len() ==> local[k] != '@',
        forall|k: int| 0 <= k < cfg.domain.len() ==> cfg.domain[k] != '@',
        value_at(ts[i].1.fingers, acct_prefix() + local + seq!['@'] + cfg.domain).is_none(),
    ensures
        ({
            let o = cfg.openid.unwrap();
            let rel = rel_for(aliases, openid_key());
            resolved(ts, acct_prefix() + local + seq!['@'] + cfg.domain, cfg.domain) == Some(
                DocModel {
                    subject: acct_prefix() + local + seq!['@'] + cfg.domain,
                    links: if url_valid(o) {
                        seq![(rel, Some(o))]
                    } else {
                        seq![]
                    },
                    properties: if url_valid(o) {
                        seq![]
                    } else {
                        seq![(rel, o)]
                    },
                },
            )
        }),
{
    let o = cfg.openid.unwrap();
    let attrs = seq![(openid_key(), o)];
    lemma_tenant_index(ts, cfg.domain, i);
    lemma_compiled_unique(cfg, aliases);
    lemma_account_domain(local, cfg.domain);
    assert(attrs.drop_last() =~= Seq::<(Seq<char>, Seq<char>)>::empty());
    assert(attrs.last() == (openid_key(), o));
    let e = Seq::<(Seq<char>, Seq<char>)>::empty();
    assert(links_of(e, aliases) =~= Seq::empty());
    assert(properties_of(e, aliases) =~= Seq::empty());
    if !url_valid(o) {
        assert(crate::entries::put(e, rel_for(aliases, openid_key()), o) =~= seq![(rel_for(aliases, openid_key()), o)]);
    }
}

impl Config {
    /// The index of the first tenant on `domain`, or the number of tenants.
    pub fn find_tenant(&self, domain: &String) -> (r: usize)
        ensures
            r as int == tenant_index(self@, domain@),
    {
        let ghost ts = self@;
        let n = self.tenants.len();
        let mut i: usize = 0;
        while i < n
            invariant
                n == self.tenants@.len(),
                ts == self@,
                i <= n,
                tenant_index(ts, domain@) == first_index(tenant_domains(ts), domain@, i as int),
            decreases n - i,
        {
            assert(tenant_domains(ts)[i as int] == self.tenants@[i as int].1.domain@);
            if self.tenants[i].1.domain == *domain {
                return i;
            }
            i = i + 1;
        }
        i
    }

    /// Answers a query for `resource` from a client on `domain`.
    pub fn resolve(&self, resource: &str, domain: &str) -> (r: Result<WebFinger, NotFound>)
        ensures
            match r {
                Ok(d) => resolved(self@, resource@, domain@) == Some(d@),
                Err(_) => resolved(self@, resource@, domain@).is_none(),
            },
    {
        let ghost ts = self@;
        let wanted = String::from_str(domain);
        let i = self.find_tenant(&wanted);
        if i >= self.tenants.len() {
            return Err(NotFound);
        }
        let tenant = &self.tenants[i].1;
        assert(ts[i as int].1 == tenant@);
        assert(model_keys(tenant@.fingers) =~= key_seq(tenant.fingers@));
        let subject = String::from_str(resource);
        let j = find_key(&tenant.fingers, &subject);
        if j < tenant.fingers.len() {
            return Ok(tenant.fingers[j].1.copy());
        }
        if !tenant.global {
            return Err(NotFound);
        }
        match extract_domain_from_resource(resource) {
            Some(rd) => {
                if String::from_str(rd) != wanted {
                    return Err(NotFound);
                }
            },
            None => {
                return Err(NotFound);
            },
        }
        let w = wildcard_subject(domain);
        let k = find_key(&tenant.fingers, &w);
        if k < tenant.fingers.len() {
            let mut answer = tenant.fingers[k].1.copy();
            answer.subject = subject;
            Ok(answer)
        } else {
            Err(NotFound)
        }
    }
}

} // verus!
