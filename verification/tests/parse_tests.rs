use ld_memory::{parse_name_attrs, parse_section};

#[test]
fn plain_section_spec() {
    let section = parse_section("flash:0x100:0x200").unwrap();
    assert_eq!(
        section.to_string(),
        "    flash : ORIGIN = 0x100, LENGTH = 0x200\n"
    );
}

#[test]
fn section_spec_with_attrs_and_offset() {
    let section = parse_section("flash (rx):0:16K:4K").unwrap();
    assert_eq!(
        section.to_string(),
        "    flash (rx): ORIGIN = 0x1000, LENGTH = 0x3000\n"
    );
}

#[test]
fn empty_numeric_fields_default_to_zero() {
    let section = parse_section("ram::").unwrap();
    assert_eq!(section.to_string(), "    ram : ORIGIN = 0x0, LENGTH = 0x0\n");
}

#[test]
fn too_few_fields_are_rejected() {
    let r = parse_section("flash:0x100");
    assert_eq!(
        r.unwrap_err(),
        "invalid section spec (\"<NAME>:<START>:<SIZE>[:<OFFSET>]\")"
    );
}

#[test]
fn too_many_fields_are_rejected() {
    let r = parse_section("flash:0:16:4:1");
    assert_eq!(
        r.unwrap_err(),
        "invalid section spec (\"<NAME>:<START>:<SIZE>[:<OFFSET>]\")"
    );
}

#[test]
fn negative_field_is_rejected() {
    let r = parse_section("flash:0:1-2");
    assert_eq!(r.unwrap_err(), "expression evaluates to negative integer");
}

#[test]
fn malformed_field_is_rejected() {
    assert!(parse_section("flash:what:0").is_err());
}

#[test]
fn offset_past_size_is_rejected() {
    let r = parse_section("flash:0:16:17");
    assert_eq!(r.unwrap_err(), "offset exceeds remaining length");
}

#[test]
fn name_and_attrs_are_separated() {
    assert_eq!(parse_name_attrs("flash (rx)"), ("flash", "rx"));
    assert_eq!(parse_name_attrs("flash"), ("flash", ""));
    assert_eq!(parse_name_attrs("a (b) (c)"), ("a", "b) (c"));
    assert_eq!(parse_name_attrs(")("), (")(", ""));
}

#[test]
fn name_trim_removes_all_whitespace() {
    assert_eq!(parse_name_attrs("\u{B}x\u{C} (a)"), ("x", "a"));
    assert_eq!(parse_name_attrs("\u{A0} y \u{2028}(a)"), ("y", "a"));
}
