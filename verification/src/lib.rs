//! Probe-signature discovery, merging and dispatch generation for a DTrace
//! provider whose call surface is dynamically typed: call sites register
//! probes by string name with variable argument-type lists, and this crate
//! reconciles them into one static provider declaration plus the matching
//! runtime dispatch behaviour.
use vstd::prelude::*;

pub mod tags;
pub mod num;
pub mod scan;
pub mod merge;
pub mod manifest;
pub mod dispatch;
pub mod emit;
pub mod provider;

use crate::merge::{MergedProbe, MergedProbeV};
use crate::scan::RecordV;
use crate::dispatch::MergePolicy;
use crate::manifest::{ProviderManifest, ManifestError};

verus! {

/// The two generated artifacts of one run: the provider declaration text
/// and the runtime dispatch source.
#[derive(Debug)]
pub struct Artifacts {
    pub declaration: String,
    pub dispatch: String,
}

/// The mathematical value of an `Artifacts`.
pub struct ArtifactsV {
    pub declaration: Seq<char>,
    pub dispatch: Seq<char>,
}

impl DeepView for Artifacts {
    type V = ArtifactsV;

    open spec fn deep_view(&self) -> ArtifactsV {
        ArtifactsV { declaration: self.declaration@, dispatch: self.dispatch@ }
    }
}

/// The merged probes of a record sequence under the chosen policy.
pub open spec fn spec_merge(policy: MergePolicy, rs: Seq<RecordV>) -> Seq<MergedProbeV> {
    match policy {
        MergePolicy::Widening => crate::merge::spec_widening_merge(rs),
        MergePolicy::VariantSplitting => crate::merge::spec_variant_merge(rs),
    }
}

/// Merges the records under the chosen policy.
pub fn merge_records(records: &Vec<crate::scan::CallSiteRecord>, policy: MergePolicy) -> (r: Vec<
    MergedProbe,
>)
    ensures
        r.deep_view() == spec_merge(policy, records.deep_view()),
{
    match policy {
        MergePolicy::Widening => crate::merge::widening_merge(records),
        MergePolicy::VariantSplitting => crate::merge::variant_merge(records),
    }
}

/// Both artifacts rendered from one merged probe set under the given
/// provider names.
pub open spec fn spec_artifacts(names: Seq<Seq<char>>, ps: Seq<MergedProbeV>) -> ArtifactsV {
    ArtifactsV {
        declaration: crate::emit::spec_declarations(names, ps),
        dispatch: crate::emit::spec_dispatch_text(names, ps),
    }
}

/// What one scan-based generation run produces: the artifacts of the merged
/// probes of every call site found in the sources, under the one policy
/// used for declaration and dispatch alike.
pub open spec fn spec_generate_from_sources(
    names: Seq<Seq<char>>,
    sources: Seq<Seq<char>>,
    policy: MergePolicy,
) -> ArtifactsV {
    spec_artifacts(names, spec_merge(policy, crate::scan::spec_scan_sources(sources)))
}

/// Scans the sources, merges what was found under `policy`, and renders
/// both artifacts.  Scanning degrades, never fails: sources with no
/// resolvable call site yield a declaration holding only the fixed
/// lifecycle probes.
pub fn generate_from_sources(
    providers: &Vec<String>,
    sources: &Vec<String>,
    policy: MergePolicy,
) -> (r: Artifacts)
    ensures
        r.deep_view() == spec_generate_from_sources(
            providers.deep_view(),
            sources.deep_view(),
            policy,
        ),
{
    let records = crate::scan::scan_sources(sources);
    let merged = merge_records(&records, policy);
    Artifacts {
        declaration: crate::emit::emit_declarations(providers, &merged),
        dispatch: crate::emit::emit_dispatch(providers, &merged),
    }
}

/// Generates both artifacts from an explicit manifest, bypassing scanning.
/// An unsupported schema version or a malformed manifest aborts generation:
/// the error is returned and no artifact is produced.
pub fn generate_from_manifest(m: &ProviderManifest) -> (r: Result<Artifacts, ManifestError>)
    ensures
        match r {
            Ok(a) => crate::manifest::spec_load_manifest(m.deep_view()) matches Ok(ps)
                && a.deep_view() == spec_artifacts(seq![m.deep_view().provider_name], ps),
            Err(e) => crate::manifest::spec_load_manifest(m.deep_view()) == Err::<
                Seq<MergedProbeV>,
                _,
            >(e),
        },
{
    let probes = match crate::manifest::load_manifest(m) {
        Ok(ps) => ps,
        Err(e) => {
            return Err(e);
        },
    };
    let mut providers: Vec<String> = Vec::new();
    providers.push(m.provider_name.clone());
    proof {
        assert(providers.deep_view() =~= seq![m.deep_view().provider_name]);
    }
    Ok(
        Artifacts {
            declaration: crate::emit::emit_declarations(&providers, &probes),
            dispatch: crate::emit::emit_dispatch(&providers, &probes),
        },
    )
}

/// Determinism: generation is a function of its inputs alone, so two runs
/// over the same provider names, the same sources and the same policy
/// produce character-identical declaration and dispatch artifacts.
pub proof fn lemma_generation_deterministic(
    names: Seq<Seq<char>>,
    sources: Seq<Seq<char>>,
    policy: MergePolicy,
    a1: ArtifactsV,
    a2: ArtifactsV,
)
    requires
        a1 == spec_generate_from_sources(names, sources, policy),
        a2 == spec_generate_from_sources(names, sources, policy),
    ensures
        a1.declaration == a2.declaration,
        a1.dispatch == a2.dispatch,
{
}

} // verus!
