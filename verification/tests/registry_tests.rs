use mps_arena::registry::KeyDescriptor;
use mps_arena::registry::Registry;
use mps_arena::registry::generate_registry;
use mps_arena::registry::parse_key_line;

fn reg_from(lines: &[&str]) -> Registry {
    let v: Vec<Vec<u8>> = lines.iter().map(|l| l.as_bytes().to_vec()).collect();
    generate_registry(&v)
}

fn parsed(line: &str) -> Option<(Vec<u8>, Vec<u8>)> {
    parse_key_line(line.as_bytes()).map(|d: KeyDescriptor| (d.name, d.field))
}

#[test]
fn parse_simple_declaration() {
    let d = parsed("#define MPS_KEY_ARENA_SIZE_FIELD size").unwrap();
    assert_eq!(d.0.as_slice(), &b"ARENA_SIZE"[..]);
    assert_eq!(d.1.as_slice(), &b"size"[..]);
}

#[test]
fn parse_allows_tabs_and_trailing_text() {
    let d = parsed("#define\t \tMPS_KEY_COMMIT_LIMIT_FIELD limit_value /* bytes */").unwrap();
    assert_eq!(d.0.as_slice(), &b"COMMIT_LIMIT"[..]);
    assert_eq!(d.1.as_slice(), &b"limit_value"[..]);
}

#[test]
fn parse_keeps_inner_suffix_in_name() {
    let d = parsed("#define MPS_KEY_A_FIELD_FIELD x").unwrap();
    assert_eq!(d.0.as_slice(), &b"A_FIELD"[..]);
    assert_eq!(d.1.as_slice(), &b"x"[..]);
}

#[test]
fn parse_rejects_leading_space() {
    assert!(parsed("  #define MPS_KEY_ARENA_SIZE_FIELD size").is_none());
}

#[test]
fn parse_rejects_missing_blank_after_define() {
    assert!(parsed("#defineMPS_KEY_ARENA_SIZE_FIELD size").is_none());
}

#[test]
fn parse_rejects_empty_key_name() {
    assert!(parsed("#define MPS_KEY__FIELD size").is_none());
}

#[test]
fn parse_rejects_token_without_field_suffix() {
    assert!(parsed("#define MPS_KEY_ARENA_SIZE size").is_none());
}

#[test]
fn parse_rejects_missing_field() {
    assert!(parsed("#define MPS_KEY_ARENA_SIZE_FIELD").is_none());
    assert!(parsed("#define MPS_KEY_ARENA_SIZE_FIELD   ").is_none());
}

#[test]
fn parse_rejects_uppercase_field() {
    assert!(parsed("#define MPS_KEY_ARENA_SIZE_FIELD SIZE").is_none());
}

#[test]
fn parse_rejects_unrelated_lines() {
    assert!(parsed("").is_none());
    assert!(parsed("typedef struct mps_arena_s *mps_arena_t;").is_none());
    assert!(parsed("#define MPS_RES_OK 0").is_none());
    assert!(parsed("#include \"mpstd.h\"").is_none());
}

#[test]
fn registry_one_rule_per_declared_key() {
    let reg = reg_from(&[
        "/* public configuration keys */",
        "#define MPS_KEY_ARENA_SIZE_FIELD size",
        "#define MPS_KEY_ARENA_SIZE_FIELD other",
        "#define MPS_KEY_COMMIT_LIMIT_FIELD limit",
        "not a declaration",
    ]);
    assert_eq!(reg.rule_count(), 2);
    let d = reg.lookup(b"ARENA_SIZE").unwrap();
    assert_eq!(d.field.as_slice(), &b"size"[..]);
    let d = reg.lookup(b"COMMIT_LIMIT").unwrap();
    assert_eq!(d.field.as_slice(), &b"limit"[..]);
}

#[test]
fn registry_field_matches_header_declaration() {
    let reg = reg_from(&["#define MPS_KEY_SPARE_COMMIT_LIMIT_FIELD size"]);
    assert_eq!(reg.rule_count(), 1);
    let d = reg.rule_at(0);
    assert_eq!(d.name.as_slice(), &b"SPARE_COMMIT_LIMIT"[..]);
    assert_eq!(d.field.as_slice(), &b"size"[..]);
}

#[test]
fn registry_skips_key_names_with_digits() {
    let reg = reg_from(&["#define MPS_KEY_VMW3_TOP_DOWN_FIELD b"]);
    assert_eq!(reg.rule_count(), 0);
}

#[test]
fn registry_skips_malformed_lines() {
    let reg = reg_from(&["#define MPS_KEY", "#define", "", "MPS_KEY_ARENA_SIZE_FIELD size"]);
    assert_eq!(reg.rule_count(), 0);
}

#[test]
fn registry_lookup_unknown_key_is_none() {
    let reg = reg_from(&["#define MPS_KEY_ARENA_SIZE_FIELD size"]);
    assert!(reg.lookup(b"PAUSE_TIME").is_none());
    assert!(!reg.contains_key(b"PAUSE_TIME"));
    assert!(reg.contains_key(b"ARENA_SIZE"));
}
