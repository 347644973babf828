use dtrace_provider::generate_from_sources;
use dtrace_provider::dispatch::MergePolicy;

#[test]
fn declaration_text_exact() {
    let providers = vec![String::from("myapp")];
    let sources = vec![String::from("addProbe('ready', 'int', 'char *');\n")];
    let a = generate_from_sources(&providers, &sources, MergePolicy::Widening);
    let expected = "provider myapp {\n  probe ready(uint64_t, char *);\n  probe probe__enabled();\n  probe probe__disabled();\n  probe provider__enabled(char *);\n  probe provider__disabled(char *);\n};\n";
    assert_eq!(a.declaration, expected);
}

#[test]
fn dispatch_text_exact() {
    let providers = vec![String::from("myapp")];
    let sources = vec![String::from("addProbe('ready', 'int', 'char *');\n")];
    let a = generate_from_sources(&providers, &sources, MergePolicy::Widening);
    let expected = "fn fire_probe(provider_name: &str, probe_name: &str, types: &[String], args: &[String]) {\n    match (provider_name, probe_name) {\n        (\"myapp\", \"ready\") => fire_typed(&[\"int\", \"str\"], types, args),\n        _ => {}\n    }\n}\n";
    assert_eq!(a.dispatch, expected);
}

#[test]
fn generation_is_deterministic() {
    let providers = vec![String::from("p1"), String::from("p2")];
    let sources = vec![
        String::from("addProbe('a', 'int');\n"),
        String::from("for (i = 1; i < 4; i++) {\n  addProbe('pfx' + i, 'json');\n}\n"),
    ];
    let a1 = generate_from_sources(&providers, &sources, MergePolicy::VariantSplitting);
    let a2 = generate_from_sources(&providers, &sources, MergePolicy::VariantSplitting);
    assert_eq!(a1.declaration, a2.declaration);
    assert_eq!(a1.dispatch, a2.dispatch);
}

#[test]
fn empty_scan_still_declares_lifecycle_probes() {
    let providers = vec![String::from("bare")];
    let sources: Vec<String> = Vec::new();
    let a = generate_from_sources(&providers, &sources, MergePolicy::Widening);
    let expected = "provider bare {\n  probe probe__enabled();\n  probe probe__disabled();\n  probe provider__enabled(char *);\n  probe provider__disabled(char *);\n};\n";
    assert_eq!(a.declaration, expected);
}

#[test]
fn multi_provider_blocks_are_replicated_and_complete() {
    let providers = vec![String::from("alpha"), String::from("beta")];
    let sources = vec![String::from("addProbe('t');\n")];
    let a = generate_from_sources(&providers, &sources, MergePolicy::Widening);
    assert!(a.declaration.contains("provider alpha {\n"));
    assert!(a.declaration.contains("provider beta {\n"));
    assert_eq!(a.declaration.matches("probe t();").count(), 2);
    assert_eq!(a.dispatch.matches("(\"alpha\", \"t\")").count(), 1);
    assert_eq!(a.dispatch.matches("(\"beta\", \"t\")").count(), 1);
}

#[test]
fn variant_mode_declares_each_signature() {
    let providers = vec![String::from("v")];
    let sources = vec![String::from(
        "addProbe('q', 'int', 'string');\naddProbe('q', 'string', 'int');\n",
    )];
    let a = generate_from_sources(&providers, &sources, MergePolicy::VariantSplitting);
    assert!(a.declaration.contains("probe q_int_str(uint64_t, char *);"));
    assert!(a.declaration.contains("probe q_str_int(char *, uint64_t);"));
}
