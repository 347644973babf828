//! Manifest loader: the override path that bypasses scanning.  An explicit,
//! versioned descriptor of provider name and probe signatures either loads
//! completely — every probe becomes a merged probe as declared — or fails
//! fatally, before any artifact is produced.
use vstd::prelude::*;
use crate::tags::{TypeTag, spec_valid_name, valid_name, spec_tag_of_literal, tag_of_literal};
use crate::merge::MergedProbe;
use crate::merge::MergedProbeV;
use crate::merge::sigs_dv;

verus! {

/// One probe declaration of a manifest: a name and its type literals.
#[derive(Debug)]
pub struct ProbeDecl {
    pub name: String,
    pub arg_types: Vec<String>,
}

/// The mathematical value of a `ProbeDecl`.
pub struct ProbeDeclV {
    pub name: Seq<char>,
    pub arg_types: Seq<Seq<char>>,
}

impl DeepView for ProbeDecl {
    type V = ProbeDeclV;

    open spec fn deep_view(&self) -> ProbeDeclV {
        ProbeDeclV {
            name: self.name@,
            arg_types: Seq::new(self.arg_types@.len(), |i: int| self.arg_types@[i]@),
        }
    }
}

/// The supported manifest schema version.
pub const SCHEMA_VERSION: i64 = 1;

/// An explicit provider descriptor: schema version, provider name, an
/// informational module name, and the declared probes.
#[derive(Debug)]
pub struct ProviderManifest {
    pub schema_version: i64,
    pub provider_name: String,
    pub module: Option<String>,
    pub probes: Vec<ProbeDecl>,
}

/// The mathematical value of a `ProviderManifest`.
pub struct ProviderManifestV {
    pub schema_version: i64,
    pub provider_name: Seq<char>,
    pub module: Option<Seq<char>>,
    pub probes: Seq<ProbeDeclV>,
}

impl DeepView for ProviderManifest {
    type V = ProviderManifestV;

    open spec fn deep_view(&self) -> ProviderManifestV {
        ProviderManifestV {
            schema_version: self.schema_version,
            provider_name: self.provider_name@,
            module: match &self.module {
                Some(m) => Some(m@),
                None => None,
            },
            probes: Seq::new(self.probes@.len(), |i: int| self.probes@[i].deep_view()),
        }
    }
}

/// Why loading a manifest failed; any of these aborts generation.
#[derive(Clone, Copy, PartialEq, Eq, Structural, Debug)]
pub enum ManifestError {
    UnsupportedSchemaVersion,
    InvalidProviderName,
    InvalidProbeName,
    DuplicateProbeName,
}

/// The signature declared by a probe's type literals.
pub open spec fn spec_tags_of_literals(ts: Seq<Seq<char>>) -> Seq<TypeTag> {
    Seq::new(ts.len(), |i: int| spec_tag_of_literal(ts[i]))
}

/// The merged probes a valid manifest declares: one per entry, identity the
/// declared name itself.
pub open spec fn spec_manifest_probes(ps: Seq<ProbeDeclV>) -> Seq<MergedProbeV> {
    Seq::new(
        ps.len(),
        |i: int|
            MergedProbeV {
                identity: ps[i].name,
                base_name: ps[i].name,
                sig: spec_tags_of_literals(ps[i].arg_types),
                origins: seq![spec_tags_of_literals(ps[i].arg_types)],
            },
    )
}

pub open spec fn spec_has_invalid_probe_name(ps: Seq<ProbeDeclV>) -> bool {
    exists|i: int| 0 <= i < ps.len() && !spec_valid_name((#[trigger] ps[i]).name)
}

pub open spec fn spec_has_duplicate_probe_name(ps: Seq<ProbeDeclV>) -> bool {
    exists|i: int, j: int| 0 <= i < j < ps.len() && (#[trigger] ps[i]).name == (#[trigger] ps[j]).name
}

/// What loading a manifest yields: its probes, or the first failure in the
/// order schema version, provider name, probe-name validity, probe-name
/// uniqueness.  The provider name must itself be a valid identifier.
pub open spec fn spec_load_manifest(m: ProviderManifestV) -> Result<Seq<MergedProbeV>, ManifestError> {
    if m.schema_version != SCHEMA_VERSION {
        Err(ManifestError::UnsupportedSchemaVersion)
    } else if !spec_valid_name(m.provider_name) {
        Err(ManifestError::InvalidProviderName)
    } else if spec_has_invalid_probe_name(m.probes) {
        Err(ManifestError::InvalidProbeName)
    } else if spec_has_duplicate_probe_name(m.probes) {
        Err(ManifestError::DuplicateProbeName)
    } else {
        Ok(spec_manifest_probes(m.probes))
    }
}

fn tags_of_literals(ts: &Vec<String>) -> (r: Vec<TypeTag>)
    ensures
        r@ == spec_tags_of_literals(Seq::new(ts@.len(), |i: int| ts@[i]@)),
{
    let ghost tv = Seq::new(ts@.len(), |i: int| ts@[i]@);
    let mut r: Vec<TypeTag> = Vec::new();
    let mut i: usize = 0;
    while i < ts.len()
        invariant
            i <= ts@.len(),
            tv == Seq::new(ts@.len(), |k: int| ts@[k]@),
            r@.len() == i,
            forall|j: int| 0 <= j < i ==> r@[j] == spec_tag_of_literal(tv[j]),
        decreases ts@.len() - i,
    {
        r.push(tag_of_literal(ts[i].as_str()));
        i += 1;
    }
    proof {
        assert(r@ =~= spec_tags_of_literals(tv));
    }
    r
}

/// Validates a manifest and turns its declarations into merged probes.
/// Loading fails — and generation must abort — exactly when the schema
/// version is unsupported, the provider name is not a valid identifier, a
/// probe name is invalid, or two probes share a name.
pub fn load_manifest(m: &ProviderManifest) -> (r: Result<Vec<MergedProbe>, ManifestError>)
    ensures
        match r {
            Ok(ps) => spec_load_manifest(m.deep_view()) == Ok::<_, ManifestError>(ps.deep_view()),
            Err(e) => spec_load_manifest(m.deep_view()) == Err::<Seq<MergedProbeV>, _>(e),
        },
{
    let ghost mv = m.deep_view();
    if m.schema_version != SCHEMA_VERSION {
        return Err(ManifestError::UnsupportedSchemaVersion);
    }
    if !valid_name(m.provider_name.as_str()) {
        return Err(ManifestError::InvalidProviderName);
    }
    let n = m.probes.len();
    let mut i: usize = 0;
    while i < n
        invariant
            n == m.probes@.len(),
            i <= n,
            mv == m.deep_view(),
            mv.schema_version == SCHEMA_VERSION,
            spec_valid_name(mv.provider_name),
            forall|j: int| 0 <= j < i ==> spec_valid_name((#[trigger] mv.probes[j]).name),
        decreases n - i,
    {
        if !valid_name(m.probes[i].name.as_str()) {
            proof {
                assert(!spec_valid_name(mv.probes[i as int].name));
                assert(spec_has_invalid_probe_name(mv.probes));
            }
            return Err(ManifestError::InvalidProbeName);
        }
        i += 1;
    }
    let mut a: usize = 0;
    while a < n
        invariant
            n == m.probes@.len(),
            a <= n,
            mv == m.deep_view(),
            mv.schema_version == SCHEMA_VERSION,
            spec_valid_name(mv.provider_name),
            !spec_has_invalid_probe_name(mv.probes),
            forall|x: int, y: int|
                0 <= x < y < n && y < a ==> (#[trigger] mv.probes[x]).name != (
                #[trigger] mv.probes[y]).name,
        decreases n - a,
    {
        let mut b: usize = 0;
        while b < a
            invariant
                n == m.probes@.len(),
                b <= a < n,
                mv == m.deep_view(),
                mv.schema_version == SCHEMA_VERSION,
                spec_valid_name(mv.provider_name),
                !spec_has_invalid_probe_name(mv.probes),
                forall|x: int|
                    0 <= x < b ==> (#[trigger] mv.probes[x]).name != mv.probes[a as int].name,
            decreases a - b,
        {
            if crate::tags::str_eq(m.probes[b].name.as_str(), m.probes[a].name.as_str()) {
                proof {
                    assert(mv.probes[b as int].name == mv.probes[a as int].name);
                    assert(spec_has_duplicate_probe_name(mv.probes));
                }
                return Err(ManifestError::DuplicateProbeName);
            }
            b += 1;
        }
        a += 1;
    }
    let mut out: Vec<MergedProbe> = Vec::new();
    let mut k: usize = 0;
    while k < n
        invariant
            n == m.probes@.len(),
            k <= n,
            mv == m.deep_view(),
            out.deep_view() =~= spec_manifest_probes(mv.probes).take(k as int),
        decreases n - k,
    {
        let sig = tags_of_literals(&m.probes[k].arg_types);
        let mut origins: Vec<Vec<TypeTag>> = Vec::new();
        origins.push(crate::scan::copy_tag_vec(&sig));
        let p = MergedProbe {
            identity: m.probes[k].name.clone(),
            base_name: m.probes[k].name.clone(),
            sig,
            origins,
        };
        let ghost pval = p;
        let ghost pv = p.deep_view();
        let ghost prev = out.deep_view();
        out.push(p);
        proof {
            assert(m.probes@[k as int].deep_view() == mv.probes[k as int]);
            assert(pv.sig == spec_tags_of_literals(mv.probes[k as int].arg_types));
            assert(sigs_dv(pval.origins@) =~= seq![pv.sig]);
            assert(pv == spec_manifest_probes(mv.probes)[k as int]);
            assert(spec_manifest_probes(mv.probes).len() == n);
            assert forall|j: int| 0 <= j < out.deep_view().len() implies out.deep_view()[j]
                == prev.push(pv)[j] by {
                assert(out@[j].deep_view() == out.deep_view()[j]);
                if j == out@.len() - 1 {
                    assert(out@[j] == pval);
                }
            }
            assert(out.deep_view() =~= prev.push(pv));
            assert(spec_manifest_probes(mv.probes).take(k + 1) =~= spec_manifest_probes(
                mv.probes,
            ).take(k as int).push(pv));
        }
        k += 1;
    }
    proof {
        assert(spec_manifest_probes(mv.probes).take(n as int) =~= spec_manifest_probes(mv.probes));
    }
    Ok(out)
}

} // verus!
