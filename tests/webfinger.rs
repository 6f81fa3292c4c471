use webfinger::{
    compile_tenant, create_webfinger, extract_domain_from_resource, merge_tenant_source,
    normalize_subject, process_tenants, resolve_alias, Config, TenantConfig, WebFinger,
};

fn s(x: &str) -> String {
    x.to_string()
}

fn pairs(items: &[(&str, &str)]) -> Vec<(String, String)> {
    items.iter().map(|(k, v)| (s(k), s(v))).collect()
}

fn tenant(domain: &str, users: Vec<(String, Vec<(String, String)>)>, global: bool, openid: Option<&str>) -> TenantConfig {
    TenantConfig { domain: s(domain), users, global, openid: openid.map(s) }
}

fn property<'a>(d: &'a WebFinger, key: &str) -> Option<&'a str> {
    d.properties.iter().find(|(k, _)| k == key).map(|(_, v)| v.as_str())
}

fn example_config(global: bool, openid: Option<&str>) -> Config {
    let users = vec![(s("alice@example.com"), pairs(&[("name", "Alice"), ("avatar", "https://cdn.example/a.png")]))];
    let tenants = vec![(s("main"), tenant("example.com", users, global, openid))];
    Config::load(tenants, pairs(&[("avatar", "http://webfinger.net/rel/avatar")])).ok().unwrap()
}

#[test]
fn normalize_email_gets_acct_prefix() {
    assert_eq!(normalize_subject("alice@example.com").ok().unwrap(), "acct:alice@example.com");
}

#[test]
fn normalize_url_unchanged() {
    assert_eq!(
        normalize_subject("https://example.com/users/bob").ok().unwrap(),
        "https://example.com/users/bob"
    );
}

#[test]
fn normalize_is_idempotent_on_both_forms() {
    let a = normalize_subject("alice@example.com").ok().unwrap();
    assert_eq!(normalize_subject(&a).ok().unwrap(), a);
    let u = normalize_subject("https://example.com/users/bob").ok().unwrap();
    assert_eq!(normalize_subject(&u).ok().unwrap(), u);
}

#[test]
fn normalize_rejects_invalid_identifier() {
    let e = normalize_subject("not-an-identifier").err().unwrap();
    assert_eq!(e.identifier, "not-an-identifier");
}

#[test]
fn normalize_rejects_empty() {
    let e = normalize_subject("").err().unwrap();
    assert_eq!(e.identifier, "");
}

#[test]
fn normalize_reports_raw_identifier_with_prefix() {
    let e = normalize_subject("acct:nobody").err().unwrap();
    assert_eq!(e.identifier, "acct:nobody");
}

#[test]
fn normalize_double_prefix_is_not_idempotent() {
    let first = normalize_subject("acct:acct:foo").ok().unwrap();
    assert_eq!(first, "acct:foo");
    assert!(normalize_subject(&first).is_err());
}

#[test]
fn domain_of_account_resource() {
    assert_eq!(extract_domain_from_resource("acct:alice@example.com"), Some("example.com"));
    assert_eq!(extract_domain_from_resource("acct:a@b@c"), Some("b"));
    assert_eq!(extract_domain_from_resource("acct:alice"), None);
    assert_eq!(extract_domain_from_resource("https://example.com/alice"), None);
    assert_eq!(extract_domain_from_resource("alice@example.com"), None);
}

#[test]
fn alias_replaces_key() {
    let aliases = pairs(&[("avatar", "http://webfinger.net/rel/avatar")]);
    assert_eq!(resolve_alias(&aliases, s("avatar")), "http://webfinger.net/rel/avatar");
    assert_eq!(resolve_alias(&aliases, s("name")), "name");
}

#[test]
fn url_attribute_becomes_link() {
    let aliases = pairs(&[("avatar", "http://webfinger.net/rel/avatar")]);
    let d = create_webfinger(s("acct:a@example.com"), pairs(&[("avatar", "https://cdn.example/a.png")]), &aliases);
    assert_eq!(d.subject, "acct:a@example.com");
    assert_eq!(d.links.len(), 1);
    assert_eq!(d.links[0].rel, "http://webfinger.net/rel/avatar");
    assert_eq!(d.links[0].href.as_deref(), Some("https://cdn.example/a.png"));
    assert!(d.properties.is_empty());
}

#[test]
fn plain_attribute_becomes_property() {
    let d = create_webfinger(s("acct:a@example.com"), pairs(&[("name", "Alice")]), &Vec::new());
    assert!(d.links.is_empty());
    assert_eq!(d.properties, pairs(&[("name", "Alice")]));
}

#[test]
fn later_property_overwrites_links_do_not() {
    let aliases = pairs(&[("nick", "name")]);
    let attrs = pairs(&[
        ("name", "Alice"),
        ("profile", "https://a.example/1"),
        ("nick", "Al"),
        ("profile", "https://a.example/2"),
    ]);
    let d = create_webfinger(s("acct:a@example.com"), attrs, &aliases);
    assert_eq!(d.properties, pairs(&[("name", "Al")]));
    assert_eq!(d.links.len(), 2);
    assert_eq!(d.links[0].href.as_deref(), Some("https://a.example/1"));
    assert_eq!(d.links[1].href.as_deref(), Some("https://a.example/2"));
}

#[test]
fn empty_non_global_tenant_compiles_to_nothing() {
    let t = compile_tenant(&tenant("example.com", Vec::new(), false, None), &Vec::new()).ok().unwrap();
    assert_eq!(t.domain, "example.com");
    assert!(!t.global);
    assert!(t.fingers.is_empty());
}

#[test]
fn global_without_identity_has_no_wildcard() {
    let t = compile_tenant(&tenant("example.com", Vec::new(), true, None), &Vec::new()).ok().unwrap();
    assert!(t.global);
    assert!(t.fingers.is_empty());
}

#[test]
fn global_with_identity_has_wildcard() {
    let t = compile_tenant(&tenant("example.com", Vec::new(), true, Some("Alice's IdP")), &Vec::new()).ok().unwrap();
    assert_eq!(t.fingers.len(), 1);
    assert_eq!(t.fingers[0].0, "acct:*@example.com");
    assert_eq!(t.fingers[0].1.subject, "acct:*@example.com");
    assert_eq!(property(&t.fingers[0].1, "openid"), Some("Alice's IdP"));
}

#[test]
fn invalid_user_fails_the_tenant() {
    let users = vec![
        (s("alice@example.com"), Vec::new()),
        (s("bad one"), Vec::new()),
        (s("also bad"), Vec::new()),
    ];
    let e = compile_tenant(&tenant("example.com", users, false, None), &Vec::new()).err().unwrap();
    assert_eq!(e.identifier, "bad one");
}

#[test]
fn colliding_subjects_keep_the_later_user() {
    let users = vec![
        (s("alice@example.com"), pairs(&[("name", "First")])),
        (s("acct:alice@example.com"), pairs(&[("name", "Second")])),
    ];
    let t = compile_tenant(&tenant("example.com", users, false, None), &Vec::new()).ok().unwrap();
    assert_eq!(t.fingers.len(), 1);
    assert_eq!(property(&t.fingers[0].1, "name"), Some("Second"));
}

#[test]
fn no_sources_give_no_tenants() {
    let c = Config::load(Vec::new(), Vec::new()).ok().unwrap();
    assert!(c.tenants.is_empty());
    assert!(process_tenants(Vec::new(), Vec::new()).ok().unwrap().is_empty());
}

#[test]
fn process_fails_on_any_bad_tenant() {
    let good = tenant("a.example", vec![(s("bob@a.example"), Vec::new())], false, None);
    let bad = tenant("b.example", vec![(s("???"), Vec::new())], false, None);
    let e = process_tenants(vec![(s("a"), good), (s("b"), bad)], Vec::new()).err().unwrap();
    assert_eq!(e.identifier, "???");
}

#[test]
fn merge_keeps_the_later_source() {
    let mut acc = Vec::new();
    merge_tenant_source(&mut acc, vec![(s("t"), tenant("old.example", Vec::new(), false, None)), (s("u"), tenant("u.example", Vec::new(), false, None))]);
    merge_tenant_source(&mut acc, vec![(s("t"), tenant("new.example", Vec::new(), false, None))]);
    assert_eq!(acc.len(), 2);
    assert_eq!(acc[0].0, "t");
    assert_eq!(acc[0].1.domain, "new.example");
    assert_eq!(acc[1].1.domain, "u.example");
}

#[test]
fn resolve_exact_match() {
    let c = example_config(false, None);
    let d = c.resolve("acct:alice@example.com", "example.com").ok().unwrap();
    assert_eq!(d.subject, "acct:alice@example.com");
    assert_eq!(property(&d, "name"), Some("Alice"));
    assert_eq!(d.links.len(), 1);
    assert_eq!(d.links[0].rel, "http://webfinger.net/rel/avatar");
}

#[test]
fn resolve_wildcard_personalizes_subject() {
    let c = example_config(true, Some("https://idp.example/openid"));
    let d = c.resolve("acct:zoe@example.com", "example.com").ok().unwrap();
    assert_eq!(d.subject, "acct:zoe@example.com");
    assert_eq!(d.links.len(), 1);
    assert_eq!(d.links[0].rel, "openid");
    assert_eq!(d.links[0].href.as_deref(), Some("https://idp.example/openid"));
    let exact = c.resolve("acct:alice@example.com", "example.com").ok().unwrap();
    assert_eq!(property(&exact, "name"), Some("Alice"));
}

#[test]
fn resolve_wildcard_plain_identity_is_property() {
    let c = example_config(true, Some("idp-example"));
    let d = c.resolve("acct:zoe@example.com", "example.com").ok().unwrap();
    assert_eq!(d.subject, "acct:zoe@example.com");
    assert_eq!(property(&d, "openid"), Some("idp-example"));
    assert!(d.links.is_empty());
}

#[test]
fn resolve_unknown_domain_not_found() {
    let c = example_config(true, Some("https://idp.example/openid"));
    assert!(c.resolve("acct:alice@example.com", "other.example").is_err());
}

#[test]
fn resolve_not_wildcard_eligible_not_found() {
    let c = example_config(true, Some("https://idp.example/openid"));
    assert!(c.resolve("https://example.com/zoe", "example.com").is_err());
    assert!(c.resolve("acct:x@other-domain.com", "example.com").is_err());
}

#[test]
fn resolve_non_global_unknown_user_not_found() {
    let c = example_config(false, None);
    assert!(c.resolve("acct:zoe@example.com", "example.com").is_err());
}

#[test]
fn validation_error_message_names_identifier() {
    let e = normalize_subject("not-an-identifier").err().unwrap();
    assert_eq!(e.message(), "invalid subject format: not-an-identifier");
}
