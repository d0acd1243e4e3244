use traceline::locate::{ErrDetails, ExtLocation, Locator, Site};
use traceline::fail::fail_at;

fn demo_locator() -> Locator {
    let main_src = "mod outer {\ntrait Greet {\nfn hello() {\nlet x = 1;\n}\n}\n}\n";
    let plain_src = "let q = 0;\nlet r = 1;\n";
    Locator::new(vec![
        ("main.rs".to_string(), main_src.to_string()),
        ("plain.rs".to_string(), plain_src.to_string()),
    ])
}

#[test]
fn locates_function_inside_trait_inside_module() {
    let mut loc = demo_locator();
    let d = loc.locate("main.rs", 4);
    assert_eq!(d.file, "main.rs");
    assert_eq!(d.line, 4);
    assert_eq!(d.function, "outer::Greet::hello");
}

#[test]
fn function_segment_resolves_when_a_declaration_encloses_the_line() {
    let mut loc = demo_locator();
    let d = loc.locate("main.rs", 3);
    assert_eq!(d.function, "outer::Greet::hello");
}

#[test]
fn module_boundary_ends_the_symbol_path() {
    // a line strictly inside a module, with no enclosing function
    let mut loc = Locator::new(vec![(
        "m.rs".to_string(),
        "mod alpha {\nlet y = 2;\n}\n".to_string(),
    )]);
    let d = loc.locate("m.rs", 2);
    assert_eq!(d.function, "alpha::");
}

#[test]
fn line_one_with_no_structure_yields_empty_path() {
    let mut loc = demo_locator();
    let d = loc.locate("plain.rs", 1);
    assert_eq!(d.function, "");
    let d0 = loc.locate("plain.rs", 0);
    assert_eq!(d0.function, "");
}

#[test]
fn repeated_lookups_agree_and_build_the_map_once() {
    let mut loc = demo_locator();
    assert_eq!(loc.cache_len(), 0);
    let d1 = loc.locate("main.rs", 4);
    assert_eq!(loc.cache_len(), 1);
    let d2 = loc.locate("main.rs", 4);
    assert_eq!(loc.cache_len(), 1);
    assert_eq!(d1.file, d2.file);
    assert_eq!(d1.line, d2.line);
    assert_eq!(d1.function, d2.function);
    let _ = loc.locate("plain.rs", 2);
    assert_eq!(loc.cache_len(), 2);
    let _ = loc.locate("main.rs", 1);
    assert_eq!(loc.cache_len(), 2);
}

#[test]
fn unknown_file_yields_sparser_label_and_no_cache_entry() {
    let mut loc = demo_locator();
    let d = loc.locate("elsewhere.rs", 7);
    assert_eq!(d.file, "elsewhere.rs");
    assert_eq!(d.line, 7);
    assert_eq!(d.function, "");
    assert_eq!(loc.cache_len(), 0);
}

#[test]
fn site_resolves_through_the_locator() {
    let mut loc = demo_locator();
    let site = Site { file: "main.rs".to_string(), line: 4 };
    let d = site.as_place(&mut loc);
    assert_eq!(d.function, "outer::Greet::hello");
}

#[test]
fn fail_at_attributes_to_the_resolved_site() {
    let mut loc = demo_locator();
    let r: traceline::Attempt<u32> = fail_at(&mut loc, "main.rs", 4, "boom".to_string());
    match r {
        Err(f) => {
            assert_eq!(f.places_len(), 1);
            let p = f.place_at(0);
            assert_eq!(p.file, "main.rs");
            assert_eq!(p.line, 4);
            assert_eq!(p.function, "outer::Greet::hello");
            assert_eq!(f.message(), "boom");
        },
        Ok(_) => panic!("fail_at returned a success"),
    }
}

#[test]
fn err_details_duplicate_is_structural() {
    let d = ErrDetails::new("f.rs".to_string(), 9, "m::g".to_string());
    let c = d.duplicate();
    assert_eq!(c.file, d.file);
    assert_eq!(c.line, d.line);
    assert_eq!(c.function, d.function);
}
