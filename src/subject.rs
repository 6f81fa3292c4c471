use vstd::prelude::*;
use crate::text::{has_prefix, first_from, starts_with, find_char};

verus! {

/// The pattern an account-style identifier (`local@domain.tld`) must match.
pub const EMAIL_PATTERN: &'static str = "^[a-zA-Z0-9._%+-]+@[a-zA-Z0-9.-]+\\.[a-zA-Z]{2,}$";

/// The `acct:` scheme that marks an account subject.
pub open spec fn acct_prefix() -> Seq<char> {
    seq!['a', 'c', 'c', 't', ':']
}

/// What a regular expression `pattern` says of `s`: `None` when the pattern does not
/// compile, else whether it matches.
pub uninterp spec fn regex_outcome(pattern: Seq<char>, s: Seq<char>) -> Option<bool>;

/// Whether `s` parses as an absolute URL.
pub uninterp spec fn url_valid(s: Seq<char>) -> bool;

/// Whether `s` has the shape of an e-mail address.
pub open spec fn email_shaped(s: Seq<char>) -> bool {
    regex_outcome(EMAIL_PATTERN@, s) == Some(true)
}

/// An identifier with a leading `acct:` taken off.
pub open spec fn candidate_of(s: Seq<char>) -> Seq<char> {
    if has_prefix(s, acct_prefix()) {
        s.subrange(5, s.len() as int)
    } else {
        s
    }
}

/// The subject a raw user identifier normalizes to, or `None` when it is invalid.
pub open spec fn normalized(s: Seq<char>) -> Option<Seq<char>> {
    let c = candidate_of(s);
    if email_shaped(c) {
        Some(acct_prefix() + c)
    } else if url_valid(c) {
        Some(c)
    } else {
        None
    }
}

/// The domain that an `acct:` resource names: the text between its first `@` and
/// the next `@` (or its end).
pub open spec fn resource_domain(r: Seq<char>) -> Option<Seq<char>> {
    if has_prefix(r, acct_prefix()) {
        let i = first_from(r, '@', 5);
        if i < r.len() {
            Some(r.subrange(i + 1, first_from(r, '@', i + 1)))
        } else {
            None
        }
    } else {
        None
    }
}

/// A user identifier that is neither an account nor a URL.
pub struct ValidationError {
    pub identifier: String,
}

impl ValidationError {
    /// The diagnostic for this error, naming the offending identifier.
    pub fn message(&self) -> (r: String)
        ensures
            r@ == "invalid subject format: "@ + self.identifier@,
    {
        let mut m = String::from_str("invalid subject format: ");
        m.append(self.identifier.as_str());
        m
    }
}

/// Relies on regex::Regex::new to compile `pattern` and Regex::is_match to test `s`
/// against it; both depend on their arguments alone.
#[verifier::external_body]
fn regex_test(pattern: &str, s: &str) -> (r: Option<bool>)
    ensures
        r == regex_outcome(pattern@, s@),
{
    match regex::Regex::new(pattern) {
        Ok(re) => Some(re.is_match(s)),
        Err(_) => None,
    }
}

/// Relies on url::Url::parse: whether `s` is accepted as an absolute URL.
#[verifier::external_body]
pub(crate) fn parses_as_url(s: &str) -> (r: bool)
    ensures
        r == url_valid(s@),
{
    url::Url::parse(s).is_ok()
}

/// Whether `s` has the shape of an e-mail address.
pub fn is_email(s: &str) -> (r: bool)
    ensures
        r == email_shaped(s@),
{
    let outcome = regex_test(EMAIL_PATTERN, s);
    match outcome {
        Some(b) => b,
        None => false,
    }
}

/// Turns a raw user identifier into its canonical subject: `acct:<local>@<domain>`
/// for an account, the URL itself for a URL.
pub fn normalize_subject(user_id: &str) -> (r: Result<String, ValidationError>)
    ensures
        match r {
            Ok(s) => normalized(user_id@) == Some(s@),
            Err(e) => normalized(user_id@).is_none() && e.identifier@ == user_id@,
        },
{
    proof {
        reveal_strlit("acct:");
    }
    assert("acct:"@ =~= acct_prefix());
    let candidate: &str = if starts_with(user_id, "acct:") {
        let n = user_id.unicode_len();
        user_id.substring_char(5, n)
    } else {
        user_id
    };
    assert(candidate@ == candidate_of(user_id@));
    if is_email(candidate) {
        let mut out = String::from_str("acct:");
        out.append(candidate);
        Ok(out)
    } else if parses_as_url(candidate) {
        Ok(String::from_str(candidate))
    } else {
        Err(ValidationError { identifier: String::from_str(user_id) })
    }
}

/// The domain named by an `acct:<local>@<domain>` resource; `None` for any other shape.
pub fn extract_domain_from_resource(resource: &str) -> (r: Option<&str>)
    ensures
        match r {
            Some(d) => resource_domain(resource@) == Some(d@),
            None => resource_domain(resource@).is_none(),
        },
{
    proof {
        reveal_strlit("acct:");
    }
    assert("acct:"@ =~= acct_prefix());
    if !starts_with(resource, "acct:") {
        return None;
    }
    let n = resource.unicode_len();
    let i = find_char(resource, '@', 5);
    if i >= n {
        return None;
    }
    let j = find_char(resource, '@', i + 1);
    proof {
        crate::text::lemma_first_from(resource@, '@', i + 1);
    }
    Some(resource.substring_char(i + 1, j))
}

/// Normalizing is idempotent: a subject that normalization produced normalizes to
/// itself. The one exception is a URL subject that itself begins with `acct:`
/// (from `acct:acct:...`), whose prefix a second pass would strip.
pub proof fn lemma_normalize_idempotent(s: Seq<char>)
    requires
        normalized(s).is_some(),
        email_shaped(candidate_of(s)) || !has_prefix(candidate_of(s), acct_prefix()),
    ensures
        normalized(normalized(s).unwrap()) == normalized(s),
{
    let c = candidate_of(s);
    if email_shaped(c) {
        let r = acct_prefix() + c;
        assert(r.subrange(0, 5) =~= acct_prefix());
        assert(r.subrange(5, r.len() as int) =~= c);
    }
}

} // verus!
