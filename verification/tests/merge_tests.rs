use dtrace_provider::scan::scan_text;
use dtrace_provider::merge::{widening_merge, variant_merge, group_records};
use dtrace_provider::tags::TypeTag;

#[test]
fn widening_int_wins_per_position() {
    let recs = scan_text("addProbe(\"p\", \"int\");\naddProbe(\"p\", \"string\");\n");
    let merged = widening_merge(&recs);
    assert_eq!(merged.len(), 1);
    assert_eq!(merged[0].identity, "p");
    assert_eq!(merged[0].sig, vec![TypeTag::Int]);
}

#[test]
fn widening_int_wins_regardless_of_order() {
    let recs = scan_text("addProbe(\"p\", \"string\");\naddProbe(\"p\", \"int\");\n");
    let merged = widening_merge(&recs);
    assert_eq!(merged.len(), 1);
    assert_eq!(merged[0].sig, vec![TypeTag::Int]);
}

#[test]
fn arity_widens_to_longest_with_string_defaults() {
    let recs = scan_text("addProbe('r', 'int');\naddProbe('r', 'string', 'int', 'json');\n");
    let merged = widening_merge(&recs);
    assert_eq!(merged.len(), 1);
    assert_eq!(merged[0].sig, vec![TypeTag::Int, TypeTag::Int, TypeTag::Str]);
}

#[test]
fn json_widens_to_string_when_no_int_seen() {
    let recs = scan_text("addProbe('j', 'json');\naddProbe('j', 'string');\n");
    let merged = widening_merge(&recs);
    assert_eq!(merged[0].sig, vec![TypeTag::Str]);
}

#[test]
fn exact_signature_repeats_deduplicate() {
    let recs = scan_text("addProbe('d', 'int');\naddProbe('d', 'int');\n");
    let groups = group_records(&recs);
    assert_eq!(groups.len(), 1);
    assert_eq!(groups[0].sigs.len(), 1);
}

#[test]
fn groups_keep_first_seen_order() {
    let recs = scan_text("addProbe('b');\naddProbe('a');\naddProbe('b', 'int');\n");
    let merged = widening_merge(&recs);
    let ids: Vec<&str> = merged.iter().map(|m| m.identity.as_str()).collect();
    assert_eq!(ids, vec!["b", "a"]);
}

#[test]
fn variant_identities_are_distinct_per_signature() {
    let recs = scan_text("addProbe('q', 'int', 'string');\naddProbe('q', 'string', 'int');\n");
    let merged = variant_merge(&recs);
    let ids: Vec<&str> = merged.iter().map(|m| m.identity.as_str()).collect();
    assert_eq!(ids, vec!["q_int_str", "q_str_int"]);
}

#[test]
fn variant_zero_arity_keeps_base_name() {
    let recs = scan_text("addProbe('z');\n");
    let merged = variant_merge(&recs);
    assert_eq!(merged.len(), 1);
    assert_eq!(merged[0].identity, "z");
}

#[test]
fn variant_suffix_uses_json_abbreviation() {
    let recs = scan_text("addProbe('v', 'json');\n");
    let merged = variant_merge(&recs);
    assert_eq!(merged[0].identity, "v_json");
}

#[test]
fn variant_duplicate_identities_keep_first() {
    // A zero-arity probe named like another probe's suffixed identity would
    // collide; the merger keeps the first and drops the later one.
    let recs = scan_text("addProbe('p_int');\naddProbe('p', 'int');\n");
    let merged = variant_merge(&recs);
    let ids: Vec<&str> = merged.iter().map(|m| m.identity.as_str()).collect();
    assert_eq!(ids, vec!["p_int"]);
}

#[test]
fn widening_keeps_origin_variants() {
    let recs = scan_text("addProbe('o', 'int');\naddProbe('o', 'string');\n");
    let merged = widening_merge(&recs);
    assert_eq!(merged[0].origins.len(), 2);
    assert_eq!(merged[0].origins[0], vec![TypeTag::Int]);
    assert_eq!(merged[0].origins[1], vec![TypeTag::Str]);
}

#[test]
fn empty_records_merge_to_empty() {
    let recs = scan_text("// nothing here\n");
    assert_eq!(widening_merge(&recs).len(), 0);
    assert_eq!(variant_merge(&recs).len(), 0);
}
