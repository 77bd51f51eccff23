use bpfquery::dialect::BPFTraceDialect;
use bpfquery::resolve::{resolve_in_signature, Catalog, CatalogEntry};
use bpfquery::textutil::u64_to_dec;

#[test]
fn resolves_trailing_token_to_type_and_index() {
    let r = resolve_in_signature("(struct path * path, struct file * file)", "file");
    assert_eq!(r, Some(("struct file *".to_string(), 1)));
}

#[test]
fn resolves_first_parameter_at_index_zero() {
    let r = resolve_in_signature("(struct path * path, struct file * file)", "path");
    assert_eq!(r, Some(("struct path *".to_string(), 0)));
}

#[test]
fn const_is_stripped_before_matching() {
    let r = resolve_in_signature("(const struct path * path,struct file * file)", "path");
    assert_eq!(r, Some(("struct path *".to_string(), 0)));
}

#[test]
fn no_matching_parameter_yields_none() {
    let r = resolve_in_signature("(struct path * path)", "file");
    assert_eq!(r, None);
}

#[test]
fn matching_is_by_exact_trailing_token() {
    // `file` must not match the parameter named `filep`
    let r = resolve_in_signature("(struct file * filep)", "file");
    assert_eq!(r, None);
}

#[test]
fn catalog_lookup_finds_first_entry() {
    let cat = Catalog {
        entries: vec![
            CatalogEntry {
                function_name: "a".to_string(),
                signature: "(int x)".to_string(),
            },
            CatalogEntry {
                function_name: "b".to_string(),
                signature: "(int y)".to_string(),
            },
        ],
    };
    assert_eq!(cat.lookup("b"), Some(&"(int y)".to_string()));
    assert_eq!(cat.lookup("c"), None);
}

#[test]
fn decimal_rendering_is_exact() {
    assert_eq!(u64_to_dec(0), "0");
    assert_eq!(u64_to_dec(7), "7");
    assert_eq!(u64_to_dec(10), "10");
    assert_eq!(u64_to_dec(90210), "90210");
    assert_eq!(u64_to_dec(u64::MAX), "18446744073709551615");
}

#[test]
fn dialect_accepts_probe_identifiers() {
    let d = BPFTraceDialect {};
    assert!(d.is_identifier_start('a'));
    assert!(d.is_identifier_start('Z'));
    assert!(d.is_identifier_start('_'));
    assert!(d.is_identifier_start('*'));
    assert!(!d.is_identifier_start('1'));
    assert!(d.is_identifier_part('1'));
    assert!(d.is_identifier_part('*'));
    assert!(!d.is_identifier_part('-'));
}
