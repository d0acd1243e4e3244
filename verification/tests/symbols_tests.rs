use traceline::symbols::{extract_fn, extract_impl, extract_mod, extract_trait, line_entry, next,
    CallMap, Type};

#[test]
fn extract_fn_plain() {
    assert_eq!(extract_fn("fn foo(x: u32) {"), Some("foo"));
}

#[test]
fn extract_fn_generic_and_indented() {
    assert_eq!(extract_fn("    pub fn bar<T>(t: T)"), Some("bar"));
}

#[test]
fn extract_fn_trims_whitespace() {
    assert_eq!(extract_fn("fn   spaced_name  (x)"), Some("spaced_name"));
}

#[test]
fn extract_fn_absent_marker() {
    assert_eq!(extract_fn("let x = 1;"), None);
}

#[test]
fn extract_fn_without_delimiter() {
    assert_eq!(extract_fn("fn nameless"), None);
}

#[test]
fn extract_impl_plain() {
    assert_eq!(extract_impl("impl Fail {"), Some("Fail"));
}

#[test]
fn extract_impl_with_for() {
    assert_eq!(extract_impl("impl Display for Fail {"), Some("Display"));
}

#[test]
fn extract_impl_needs_brace() {
    assert_eq!(extract_impl("impl Fail"), None);
}

#[test]
fn extract_impl_leading_generics_stick_to_keyword() {
    // `impl<T>` leaves no space after the keyword, so the marker is absent.
    assert_eq!(extract_impl("impl<T> ExtString for T {}"), None);
}

#[test]
fn extract_impl_generic_target_keeps_tail_after_angle() {
    // The name starts right after the closing `>` of the target's generics.
    assert_eq!(extract_impl("impl Convert<T> for Value {"), Some(""));
}

#[test]
fn extract_trait_plain() {
    assert_eq!(extract_trait("trait ExtString: Sized {"), Some("ExtString"));
}

#[test]
fn extract_trait_generic() {
    assert_eq!(extract_trait("pub trait Convert<T> {"), Some("Convert"));
}

#[test]
fn extract_trait_needs_brace() {
    assert_eq!(extract_trait("trait ExtString: Sized"), None);
}

#[test]
fn extract_mod_plain() {
    assert_eq!(extract_mod("mod json_io {"), Some("json_io"));
}

#[test]
fn extract_mod_declaration_only() {
    assert_eq!(extract_mod("mod foo;"), None);
}

#[test]
fn find_closest_prefers_earliest_marker() {
    assert_eq!(Type::find_closest("mod m { fn f"), Some((0, Type::Mod)));
    assert_eq!(Type::find_closest("    fn f() { mod m {"), Some((4, Type::Fn)));
    assert_eq!(Type::find_closest("let x = 1;"), None);
}

#[test]
fn closet_str_picks_the_earliest_pattern() {
    assert_eq!(
        traceline::symbols::closet_str("abc for {", ["for", "{"]),
        Some((4, "for"))
    );
    assert_eq!(
        traceline::symbols::closet_str("abc { for", ["for", "{"]),
        Some((4, "{"))
    );
    assert_eq!(traceline::symbols::closet_str("abc", ["for", "{"]), None);
}

#[test]
fn marker_strings() {
    assert_eq!(Type::Fn.as_str(), "fn ");
    assert_eq!(Type::Impl.as_str(), "impl ");
    assert_eq!(Type::Trait.as_str(), "trait ");
    assert_eq!(Type::Mod.as_str(), "mod ");
}

#[test]
fn line_entry_classifies() {
    assert_eq!(line_entry("fn foo() {"), Some(("foo".to_string(), Type::Fn)));
    assert_eq!(line_entry("mod m {"), Some(("m".to_string(), Type::Mod)));
    assert_eq!(line_entry("}"), None);
}

#[test]
fn call_map_lines_are_one_indexed() {
    let map = CallMap::new("mod a {\nfn b() {\n}\n");
    // four lines (a trailing newline yields a final empty line), plus slot 0
    assert_eq!(map.len(), 5);
    assert!(!map.has_entry(0));
    assert!(map.has_entry(1));
    assert!(map.has_entry(2));
    assert!(!map.has_entry(3));
    assert!(!map.has_entry(4));
}

#[test]
fn next_walks_down_to_nearest_entry() {
    let map = CallMap::new("mod a {\nfn b() {\n}\n");
    let mut i: u32 = 3;
    let e = next(&map, &mut i);
    assert_eq!(i, 2);
    assert_eq!(e, Some(("b".to_string(), Type::Fn)));
    let mut j: u32 = 1;
    let e2 = next(&map, &mut j);
    assert_eq!(j, 1);
    assert_eq!(e2, Some(("a".to_string(), Type::Mod)));
}
