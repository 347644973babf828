use dtrace_provider::scan::scan_text;
use dtrace_provider::scan::scan_sources;
use dtrace_provider::tags::TypeTag;

#[test]
fn static_call_site_with_types() {
    let recs = scan_text("provider.addProbe('ready', 'int', 'char *');\n");
    assert_eq!(recs.len(), 1);
    assert_eq!(recs[0].name, "ready");
    assert_eq!(recs[0].tags, vec![TypeTag::Int, TypeTag::Str]);
}

#[test]
fn static_call_site_zero_arity() {
    let recs = scan_text("addProbe(\"tick\");");
    assert_eq!(recs.len(), 1);
    assert_eq!(recs[0].name, "tick");
    assert_eq!(recs[0].tags.len(), 0);
}

#[test]
fn type_vocabulary_mapping() {
    let recs = scan_text("addProbe('p', 'int', 'uint', 'json', 'char *', 'bogus');");
    assert_eq!(recs.len(), 1);
    assert_eq!(
        recs[0].tags,
        vec![TypeTag::Int, TypeTag::Int, TypeTag::Json, TypeTag::Str, TypeTag::Str]
    );
}

#[test]
fn loop_expansion_exact_names() {
    let src = "for (i = 1; i < 4; i++) {\n  addProbe('pfx' + i, 'int');\n}\n";
    let recs = scan_text(src);
    let names: Vec<&str> = recs.iter().map(|r| r.name.as_str()).collect();
    assert_eq!(names, vec!["pfx1", "pfx2", "pfx3"]);
    for r in &recs {
        assert_eq!(r.tags, vec![TypeTag::Int]);
    }
    assert!(!names.contains(&"pfx0"));
    assert!(!names.contains(&"pfx4"));
}

#[test]
fn loop_expansion_with_let_keyword() {
    let src = "for (let k = 0; k < 2; k++) {\n  addProbe('job' + k);\n}\n";
    let recs = scan_text(src);
    let names: Vec<&str> = recs.iter().map(|r| r.name.as_str()).collect();
    assert_eq!(names, vec!["job0", "job1"]);
}

#[test]
fn dynamic_name_without_enclosing_loop_is_dropped() {
    let recs = scan_text("addProbe('pfx' + i, 'int');\n");
    assert_eq!(recs.len(), 0);
}

#[test]
fn dynamic_name_with_mismatched_counter_is_dropped() {
    let src = "for (i = 1; i < 4; i++) {\n  addProbe('pfx' + j, 'int');\n}\n";
    let recs = scan_text(src);
    assert_eq!(recs.len(), 0);
}

#[test]
fn loop_context_cleared_by_closing_brace() {
    let src = "for (i = 1; i < 3; i++) {\n}\naddProbe('late' + i);\n";
    let recs = scan_text(src);
    assert_eq!(recs.len(), 0);
}

#[test]
fn comment_lines_are_skipped() {
    let src = "// addProbe('ghost', 'int');\naddProbe('real');\n";
    let recs = scan_text(src);
    assert_eq!(recs.len(), 1);
    assert_eq!(recs[0].name, "real");
}

#[test]
fn invalid_names_are_dropped() {
    let recs = scan_text("addProbe('has space');\naddProbe('1starts_digit');\naddProbe('');\n");
    assert_eq!(recs.len(), 0);
}

#[test]
fn underscore_start_is_valid() {
    let recs = scan_text("addProbe('_ok2');");
    assert_eq!(recs.len(), 1);
    assert_eq!(recs[0].name, "_ok2");
}

#[test]
fn unresolvable_type_argument_drops_the_site() {
    let recs = scan_text("addProbe('p', someVariable);");
    assert_eq!(recs.len(), 0);
}

#[test]
fn oversized_loop_is_unresolvable() {
    let src = "for (i = 0; i < 2000; i++) {\n  addProbe('big' + i);\n}\n";
    let recs = scan_text(src);
    assert_eq!(recs.len(), 0);
}

#[test]
fn multiple_sources_concatenate_in_order() {
    let sources = vec![
        String::from("addProbe('one');"),
        String::from("addProbe('two');"),
    ];
    let recs = scan_sources(&sources);
    let names: Vec<&str> = recs.iter().map(|r| r.name.as_str()).collect();
    assert_eq!(names, vec!["one", "two"]);
}

#[test]
fn loop_context_does_not_cross_sources() {
    let sources = vec![
        String::from("for (i = 1; i < 3; i++) {"),
        String::from("addProbe('x' + i);"),
    ];
    let recs = scan_sources(&sources);
    assert_eq!(recs.len(), 0);
}

#[test]
fn empty_source_yields_no_records() {
    assert_eq!(scan_text("").len(), 0);
    assert_eq!(scan_text("\n\n").len(), 0);
}
