use dtrace_provider::provider::{create_dtrace_provider, create_d_trace_provider, default_args, infer_literals};

#[test]
fn create_provider_starts_disabled_and_empty() {
    let p = create_dtrace_provider(String::from("app"), None);
    assert_eq!(p.name, "app");
    assert!(p.module.is_none());
    assert_eq!(p.probes.len(), 0);
    assert!(!p.enabled);
}

#[test]
fn create_alias_behaves_identically() {
    let p = create_d_trace_provider(String::from("app"), Some(String::from("mod")));
    assert_eq!(p.name, "app");
    assert_eq!(p.module.as_deref(), Some("mod"));
    assert!(!p.enabled);
}

#[test]
fn add_probe_returns_handle_and_registers() {
    let mut p = create_dtrace_provider(String::from("app"), None);
    let h = p.add_probe(String::from("req"), vec![String::from("int")]);
    assert_eq!(h.name, "req");
    assert_eq!(h.types, vec![String::from("int")]);
    assert_eq!(h.provider_name, "app");
    assert_eq!(p.probes.len(), 1);
    assert_eq!(p.probes[0].name, "req");
}

#[test]
fn add_probe_replaces_same_name() {
    let mut p = create_dtrace_provider(String::from("app"), None);
    p.add_probe(String::from("req"), vec![String::from("int")]);
    p.add_probe(String::from("req"), vec![String::from("string"), String::from("json")]);
    assert_eq!(p.probes.len(), 1);
    assert_eq!(p.probes[0].types.len(), 2);
}

#[test]
fn enable_succeeds_and_is_idempotent() {
    let mut p = create_dtrace_provider(String::from("app"), None);
    assert!(p.enable().is_ok());
    assert!(p.enabled);
    assert!(p.enable().is_ok());
    assert!(p.enabled);
}

#[test]
fn disable_clears_the_flag() {
    let mut p = create_dtrace_provider(String::from("app"), None);
    p.enable().unwrap();
    assert!(p.disable().is_ok());
    assert!(!p.enabled);
    assert!(p.enable().is_ok());
    assert!(p.enabled);
}

#[test]
fn fire_unknown_probe_is_ok() {
    let mut p = create_dtrace_provider(String::from("app"), None);
    p.enable().unwrap();
    assert!(p.fire(String::from("never_registered")).is_ok());
    assert!(p.fire_with_args(String::from("never_registered"), vec![String::from("5")]).is_ok());
}

#[test]
fn fire_on_disabled_provider_is_ok_and_requestless() {
    let p = create_dtrace_provider(String::from("app"), None);
    assert!(p.fire(String::from("x")).is_ok());
    assert!(p.fire_request(&String::from("x")).is_none());
}

#[test]
fn fire_request_uses_stored_types_and_defaults() {
    let mut p = create_dtrace_provider(String::from("app"), None);
    p.add_probe(
        String::from("req"),
        vec![String::from("int"), String::from("json"), String::from("string")],
    );
    p.enable().unwrap();
    let r = p.fire_request(&String::from("req")).unwrap();
    assert_eq!(r.name, "req");
    assert_eq!(r.types, vec!["int", "json", "string"]);
    assert_eq!(r.args, vec!["0", "undefined", "undefined"]);
}

#[test]
fn fire_request_for_unknown_name_is_empty_request() {
    let mut p = create_dtrace_provider(String::from("app"), None);
    p.enable().unwrap();
    let r = p.fire_request(&String::from("ghost")).unwrap();
    assert_eq!(r.name, "ghost");
    assert!(r.types.is_empty());
    assert!(r.args.is_empty());
}

#[test]
fn fire_args_request_infers_for_unknown_name() {
    let mut p = create_dtrace_provider(String::from("app"), None);
    p.enable().unwrap();
    let args = vec![String::from("12"), String::from("hello")];
    let r = p.fire_args_request(&String::from("ghost"), &args).unwrap();
    assert_eq!(r.types, vec!["int", "string"]);
    assert_eq!(r.args, vec!["12", "hello"]);
}

#[test]
fn fire_args_request_prefers_stored_types() {
    let mut p = create_dtrace_provider(String::from("app"), None);
    p.add_probe(String::from("req"), vec![String::from("string")]);
    p.enable().unwrap();
    let args = vec![String::from("12")];
    let r = p.fire_args_request(&String::from("req"), &args).unwrap();
    assert_eq!(r.types, vec!["string"]);
}

#[test]
fn probe_handle_fires_without_provider() {
    let mut p = create_dtrace_provider(String::from("app"), None);
    let h = p.add_probe(String::from("req"), vec![String::from("int")]);
    assert!(h.fire().is_ok());
    let r = h.fire_request();
    assert_eq!(r.name, "req");
    assert_eq!(r.args, vec!["0"]);
    assert!(h.fire_with_args(vec![String::from("9")]).is_ok());
    let r2 = h.fire_args_request(&vec![String::from("9")]);
    assert_eq!(r2.args, vec!["9"]);
}

#[test]
fn default_args_match_type_literals() {
    let types = vec![String::from("int"), String::from("uint"), String::from("char *")];
    let args = default_args(&types);
    assert_eq!(args, vec!["0", "undefined", "undefined"]);
}

#[test]
fn inferred_literals_by_parseability() {
    let args = vec![String::from("0"), String::from("-1"), String::from("+2")];
    let lits = infer_literals(&args);
    assert_eq!(lits, vec!["int", "string", "string"]);
}
