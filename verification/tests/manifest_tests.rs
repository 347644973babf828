use dtrace_provider::manifest::{
    load_manifest, ManifestError, ProbeDecl, ProviderManifest, SCHEMA_VERSION,
};
use dtrace_provider::generate_from_manifest;

fn sample_manifest() -> ProviderManifest {
    ProviderManifest {
        schema_version: SCHEMA_VERSION,
        provider_name: String::from("myapp"),
        module: Some(String::from("core")),
        probes: vec![
            ProbeDecl {
                name: String::from("ready"),
                arg_types: vec![String::from("int"), String::from("string")],
            },
            ProbeDecl { name: String::from("done"), arg_types: vec![] },
        ],
    }
}

#[test]
fn valid_manifest_loads_all_probes() {
    let probes = load_manifest(&sample_manifest()).unwrap();
    assert_eq!(probes.len(), 2);
    assert_eq!(probes[0].identity, "ready");
    assert_eq!(probes[0].base_name, "ready");
    assert_eq!(probes[1].identity, "done");
    assert_eq!(probes[1].sig.len(), 0);
}

#[test]
fn unsupported_schema_version_is_fatal() {
    let mut m = sample_manifest();
    m.schema_version = 2;
    assert_eq!(load_manifest(&m).unwrap_err(), ManifestError::UnsupportedSchemaVersion);
}

#[test]
fn schema_two_aborts_before_any_artifact() {
    let mut m = sample_manifest();
    m.schema_version = 2;
    let r = generate_from_manifest(&m);
    assert!(r.is_err());
    assert_eq!(r.err().unwrap(), ManifestError::UnsupportedSchemaVersion);
}

#[test]
fn empty_provider_name_is_fatal() {
    let mut m = sample_manifest();
    m.provider_name = String::new();
    assert_eq!(load_manifest(&m).unwrap_err(), ManifestError::InvalidProviderName);
}

#[test]
fn invalid_probe_name_is_fatal() {
    let mut m = sample_manifest();
    m.probes[1].name = String::from("has-hyphen");
    assert_eq!(load_manifest(&m).unwrap_err(), ManifestError::InvalidProbeName);
}

#[test]
fn duplicate_probe_name_is_fatal() {
    let mut m = sample_manifest();
    m.probes[1].name = String::from("ready");
    assert_eq!(load_manifest(&m).unwrap_err(), ManifestError::DuplicateProbeName);
}

#[test]
fn manifest_generation_declares_declared_signatures() {
    let a = generate_from_manifest(&sample_manifest()).unwrap();
    assert!(a.declaration.starts_with("provider myapp {\n"));
    assert!(a.declaration.contains("  probe ready(uint64_t, char *);\n"));
    assert!(a.declaration.contains("  probe done();\n"));
    assert!(a.declaration.contains("  probe provider__disabled(char *);\n"));
    assert!(a.dispatch.contains("(\"myapp\", \"ready\") => fire_typed(&[\"int\", \"str\"], types, args),"));
}

#[test]
fn unrecognized_manifest_type_defaults_to_string() {
    let m = ProviderManifest {
        schema_version: SCHEMA_VERSION,
        provider_name: String::from("p"),
        module: None,
        probes: vec![ProbeDecl {
            name: String::from("odd"),
            arg_types: vec![String::from("mystery")],
        }],
    };
    let probes = load_manifest(&m).unwrap();
    assert_eq!(probes[0].sig, vec![dtrace_provider::tags::TypeTag::Str]);
}

#[test]
fn manifest_generation_is_deterministic() {
    let a1 = generate_from_manifest(&sample_manifest()).unwrap();
    let a2 = generate_from_manifest(&sample_manifest()).unwrap();
    assert_eq!(a1.declaration, a2.declaration);
    assert_eq!(a1.dispatch, a2.dispatch);
}
