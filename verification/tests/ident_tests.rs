use cirno::ident::{Ident, Locator};

fn is_hex_lower(s: &str) -> bool {
    s.chars().all(|c| c.is_ascii_hexdigit() && !c.is_ascii_uppercase())
}

#[test]
fn parse_strict_unscoped() {
    let loc = Locator::try_parse("lodash@1.2.3", true).unwrap();
    assert_eq!(loc.ident.scope, None);
    assert_eq!(loc.ident.name, "lodash");
    assert_eq!(loc.reference, "1.2.3");
}

#[test]
fn parse_strict_scoped() {
    let loc = Locator::try_parse("@types/node@18.0.0", true).unwrap();
    assert_eq!(loc.ident.scope.as_deref(), Some("types"));
    assert_eq!(loc.ident.name, "node");
    assert_eq!(loc.reference, "18.0.0");
}

#[test]
fn parse_strict_requires_reference() {
    assert!(Locator::try_parse("lodash", true).is_none());
    assert!(Locator::try_parse("@types/node", true).is_none());
}

#[test]
fn parse_loose_defaults_reference() {
    let loc = Locator::try_parse("lodash", false).unwrap();
    assert_eq!(loc.ident.scope, None);
    assert_eq!(loc.ident.name, "lodash");
    assert_eq!(loc.reference, "unknown");

    let loc = Locator::try_parse("@types/node", false).unwrap();
    assert_eq!(loc.ident.scope.as_deref(), Some("types"));
    assert_eq!(loc.ident.name, "node");
    assert_eq!(loc.reference, "unknown");
}

#[test]
fn parse_rejects_malformed() {
    // an empty reference after the separator
    assert!(Locator::try_parse("lodash@", false).is_none());
    assert!(Locator::try_parse("lodash@", true).is_none());
    // a scope marker without a slash
    assert!(Locator::try_parse("@foo@1.2.3", true).is_none());
    assert!(Locator::try_parse("@foo", false).is_none());
    // an empty scope or name
    assert!(Locator::try_parse("@/node@1.2.3", true).is_none());
    assert!(Locator::try_parse("@types/@1.2.3", true).is_none());
    // a slash in the name position
    assert!(Locator::try_parse("a/b@1.2.3", true).is_none());
    // nothing at all
    assert!(Locator::try_parse("", true).is_none());
    assert!(Locator::try_parse("", false).is_none());
}

#[test]
fn parse_keeps_later_separators_in_reference() {
    let loc = Locator::try_parse("pkg@npm:1.2.3@beta", true).unwrap();
    assert_eq!(loc.ident.name, "pkg");
    assert_eq!(loc.reference, "npm:1.2.3@beta");
}

#[test]
fn parse_accepts_names_beyond_ascii() {
    let loc = Locator::try_parse("caf\u{e9}@1.0.0", true).unwrap();
    assert_eq!(loc.ident.name, "caf\u{e9}");
    assert_eq!(loc.reference, "1.0.0");
    assert_eq!(loc.slugify(), "caf\u{e9}");
}

#[test]
fn slugify_unscoped_is_name() {
    let ident = Ident::new(None, "lodash".to_string());
    assert_eq!(ident.slugify(), "lodash");
}

#[test]
fn slugify_scoped_joins_with_hyphen() {
    let ident = Ident::new(Some("types".to_string()), "node".to_string());
    assert_eq!(ident.slugify(), "@types-node");
}

#[test]
fn slug_roundtrip_is_stable_for_unscoped() {
    let loc = Locator::try_parse("lodash@1.2.3", true).unwrap();
    let slug = loc.slugify();
    assert_eq!(slug, "lodash");
    let again = Locator::try_parse(&slug, false).unwrap();
    assert_eq!(again.slugify(), slug);
    let third = Locator::try_parse(&again.slugify(), false).unwrap();
    assert_eq!(third.slugify(), slug);
}

#[test]
fn scoped_slug_does_not_reparse() {
    let loc = Locator::try_parse("@types/node@18.0.0", true).unwrap();
    let slug = loc.slugify();
    assert_eq!(slug, "@types-node");
    assert!(Locator::try_parse(&slug, false).is_none());
    assert!(Locator::try_parse(&slug, true).is_none());
}

#[test]
fn ident_hash_is_lowercase_hex_digest() {
    let ident = Ident::new(None, "lodash".to_string());
    assert_eq!(ident.ident_hash.len(), 128);
    assert!(is_hex_lower(&ident.ident_hash));
    assert_ne!(ident.ident_hash, "lodash");
}

#[test]
fn ident_hash_is_deterministic_and_content_addressed() {
    let a = Ident::new(None, "lodash".to_string());
    let b = Ident::new(None, "lodash".to_string());
    let c = Ident::new(None, "left-pad".to_string());
    assert_eq!(a.ident_hash, b.ident_hash);
    assert_ne!(a.ident_hash, c.ident_hash);
}

#[test]
fn locator_hash_covers_reference() {
    let a = Locator::new(Ident::new(None, "lodash".to_string()), "1.0.0".to_string());
    let b = Locator::new(Ident::new(None, "lodash".to_string()), "2.0.0".to_string());
    assert_eq!(a.locator_hash.len(), 128);
    assert!(is_hex_lower(&a.locator_hash));
    assert_ne!(a.locator_hash, b.locator_hash);
    assert_eq!(a.ident.ident_hash, b.ident.ident_hash);
}

#[test]
fn parsed_locator_hashes_match_direct_construction() {
    let parsed = Locator::try_parse("@types/node@18.0.0", true).unwrap();
    let built = Locator::new(
        Ident::new(Some("types".to_string()), "node".to_string()),
        "18.0.0".to_string(),
    );
    assert_eq!(parsed.ident.ident_hash, built.ident.ident_hash);
    assert_eq!(parsed.locator_hash, built.locator_hash);
}
