use dtrace_provider::scan::scan_text;
use dtrace_provider::merge::{widening_merge, variant_merge};
use dtrace_provider::dispatch::{
    coerce_args, infer_types, dispatch_probe, CoercedArg, DispatchOutcome, MergePolicy,
};
use dtrace_provider::tags::TypeTag;

fn text_of(arg: &CoercedArg) -> &str {
    match arg {
        CoercedArg::Text(s) => s.as_str(),
        CoercedArg::UInt(_) => panic!("expected a text slot"),
    }
}

fn uint_of(arg: &CoercedArg) -> u64 {
    match arg {
        CoercedArg::UInt(v) => *v,
        CoercedArg::Text(_) => panic!("expected an integer slot"),
    }
}

#[test]
fn coercion_defaults_for_malformed_and_missing() {
    let sig = vec![TypeTag::Int, TypeTag::Str];
    let args = vec![String::from("notanumber")];
    let coerced = coerce_args(&sig, &args);
    assert_eq!(coerced.len(), 2);
    assert_eq!(uint_of(&coerced[0]), 0);
    assert_eq!(text_of(&coerced[1]), "undefined");
}

#[test]
fn coercion_parses_valid_integers() {
    let sig = vec![TypeTag::Int, TypeTag::Int, TypeTag::Str];
    let args = vec![
        String::from("42"),
        String::from("18446744073709551615"),
        String::from("text"),
    ];
    let coerced = coerce_args(&sig, &args);
    assert_eq!(uint_of(&coerced[0]), 42);
    assert_eq!(uint_of(&coerced[1]), u64::MAX);
    assert_eq!(text_of(&coerced[2]), "text");
}

#[test]
fn coercion_overflow_defaults_to_zero() {
    let sig = vec![TypeTag::Int];
    let args = vec![String::from("18446744073709551616")];
    let coerced = coerce_args(&sig, &args);
    assert_eq!(uint_of(&coerced[0]), 0);
}

#[test]
fn coercion_ignores_extra_arguments() {
    let sig = vec![TypeTag::Str];
    let args = vec![String::from("kept"), String::from("dropped")];
    let coerced = coerce_args(&sig, &args);
    assert_eq!(coerced.len(), 1);
    assert_eq!(text_of(&coerced[0]), "kept");
}

#[test]
fn inference_by_parseability() {
    let args = vec![
        String::from("123"),
        String::from("abc"),
        String::from(""),
        String::from("99999999999999999999"),
    ];
    let types = infer_types(&args);
    assert_eq!(types, vec![TypeTag::Int, TypeTag::Str, TypeTag::Str, TypeTag::Str]);
}

#[test]
fn unknown_probe_dispatch_is_noop() {
    let recs = scan_text("addProbe('known', 'int');\n");
    let table = widening_merge(&recs);
    let out = dispatch_probe(
        &table,
        MergePolicy::Widening,
        &String::from("unknown"),
        &Vec::new(),
        &Vec::new(),
    );
    assert!(matches!(out, DispatchOutcome::NoOp));
}

#[test]
fn widening_dispatch_selects_by_identity() {
    let recs = scan_text("addProbe('known', 'int');\n");
    let table = widening_merge(&recs);
    let out = dispatch_probe(
        &table,
        MergePolicy::Widening,
        &String::from("known"),
        &Vec::new(),
        &vec![String::from("7")],
    );
    match out {
        DispatchOutcome::Fired { identity, args } => {
            assert_eq!(identity, "known");
            assert_eq!(uint_of(&args[0]), 7);
        },
        DispatchOutcome::NoOp => panic!("expected a firing"),
    }
}

#[test]
fn variant_dispatch_exact_signature_match() {
    let recs = scan_text("addProbe('q', 'int', 'string');\naddProbe('q', 'string', 'int');\n");
    let table = variant_merge(&recs);
    let out = dispatch_probe(
        &table,
        MergePolicy::VariantSplitting,
        &String::from("q"),
        &vec![TypeTag::Str, TypeTag::Int],
        &vec![String::from("x"), String::from("5")],
    );
    match out {
        DispatchOutcome::Fired { identity, args } => {
            assert_eq!(identity, "q_str_int");
            assert_eq!(text_of(&args[0]), "x");
            assert_eq!(uint_of(&args[1]), 5);
        },
        DispatchOutcome::NoOp => panic!("expected a firing"),
    }
}

#[test]
fn variant_dispatch_unseen_types_fall_back_to_lexicographically_first() {
    let recs = scan_text("addProbe('q', 'str');\naddProbe('q', 'int');\n");
    let table = variant_merge(&recs);
    let out = dispatch_probe(
        &table,
        MergePolicy::VariantSplitting,
        &String::from("q"),
        &vec![TypeTag::Json],
        &Vec::new(),
    );
    match out {
        DispatchOutcome::Fired { identity, .. } => assert_eq!(identity, "q_int"),
        DispatchOutcome::NoOp => panic!("expected the fallback variant"),
    }
}
