//! The runtime-facing registry and firing facade: a named provider holding
//! named probes, each with its stored type list, plus an enabled flag whose
//! activation side effect — registering the process's probes with the
//! tracing runtime — happens at most once.
//!
//! The provider here is an owned value; the host layer that shares one
//! provider across threads wraps it in its own lock and holds that lock
//! around each method call, so the check-and-set in `enable` is atomic.
use vstd::prelude::*;
use crate::num::spec_parse_u64;
use crate::num::parse_u64;

verus! {

/// One registered probe: its name, its stored type literals, and the name
/// of the provider it was registered under.
#[derive(Debug)]
pub struct DTraceProbe {
    pub name: String,
    pub types: Vec<String>,
    pub provider_name: String,
}

/// The mathematical value of a `DTraceProbe`.
pub struct DTraceProbeV {
    pub name: Seq<char>,
    pub types: Seq<Seq<char>>,
    pub provider_name: Seq<char>,
}

impl DeepView for DTraceProbe {
    type V = DTraceProbeV;

    open spec fn deep_view(&self) -> DTraceProbeV {
        DTraceProbeV {
            name: self.name@,
            types: self.types.deep_view(),
            provider_name: self.provider_name@,
        }
    }
}

/// A named provider: its registered probes and its enabled flag.
#[derive(Debug)]
pub struct DTraceProvider {
    pub name: String,
    pub module: Option<String>,
    pub probes: Vec<DTraceProbe>,
    pub enabled: bool,
}

/// The mathematical value of a `DTraceProvider`.
pub struct DTraceProviderV {
    pub name: Seq<char>,
    pub module: Option<Seq<char>>,
    pub probes: Seq<DTraceProbeV>,
    pub enabled: bool,
}

impl DeepView for DTraceProvider {
    type V = DTraceProviderV;

    open spec fn deep_view(&self) -> DTraceProviderV {
        DTraceProviderV {
            name: self.name@,
            module: self.module.deep_view(),
            probes: self.probes.deep_view(),
            enabled: self.enabled,
        }
    }
}

/// A provider is well formed when its probe names are pairwise distinct and
/// every probe carries the provider's own name.
pub open spec fn spec_provider_wf(p: DTraceProviderV) -> bool {
    &&& forall|i: int, j: int|
        0 <= i < j < p.probes.len() ==> (#[trigger] p.probes[i]).name != (
        #[trigger] p.probes[j]).name
    &&& forall|i: int|
        0 <= i < p.probes.len() ==> (#[trigger] p.probes[i]).provider_name == p.name
}

/// Why a provider operation failed; only enabling can fail, and only when
/// the tracing runtime rejects the registration.
#[derive(Debug)]
pub enum ProviderError {
    RegistrationFailed(String),
}

impl ProviderError {
    /// The failure's description.
    pub fn message(&self) -> (r: String)
        ensures
            match self {
                ProviderError::RegistrationFailed(s) => r@ == s@,
            },
    {
        match self {
            ProviderError::RegistrationFailed(s) => s.clone(),
        }
    }
}

/// The first probe at or after `i` named `name`.
pub open spec fn spec_find_probe_from(ps: Seq<DTraceProbeV>, name: Seq<char>, i: int) -> Option<
    int,
>
    decreases ps.len() - i,
{
    if i < 0 || i >= ps.len() {
        None
    } else if ps[i].name == name {
        Some(i)
    } else {
        spec_find_probe_from(ps, name, i + 1)
    }
}

pub proof fn lemma_find_probe_from(ps: Seq<DTraceProbeV>, name: Seq<char>, i: int)
    requires
        0 <= i,
    ensures
        match spec_find_probe_from(ps, name, i) {
            Some(k) => i <= k < ps.len() && ps[k].name == name,
            None => forall|k: int| i <= k < ps.len() ==> (#[trigger] ps[k]).name != name,
        },
    decreases ps.len() - i,
{
    if 0 <= i < ps.len() && ps[i].name != name {
        lemma_find_probe_from(ps, name, i + 1);
    }
}

fn find_probe_from(ps: &Vec<DTraceProbe>, name: &String, i: usize) -> (r: Option<usize>)
    requires
        i <= ps@.len(),
    ensures
        match r {
            Some(k) => Some(k as int) == spec_find_probe_from(ps.deep_view(), name@, i as int) && k
                < ps@.len(),
            None => spec_find_probe_from(ps.deep_view(), name@, i as int) is None,
        },
    decreases ps@.len() - i,
{
    if i >= ps.len() {
        None
    } else if crate::tags::str_eq(ps[i].name.as_str(), name.as_str()) {
        proof {
            assert(ps.deep_view()[i as int].name == name@);
        }
        Some(i)
    } else {
        proof {
            assert(ps.deep_view()[i as int].name != name@);
        }
        find_probe_from(ps, name, i + 1)
    }
}

fn copy_string_vec(v: &Vec<String>) -> (r: Vec<String>)
    ensures
        r.deep_view() == v.deep_view(),
{
    let mut r: Vec<String> = Vec::new();
    let mut i: usize = 0;
    while i < v.len()
        invariant
            i <= v@.len(),
            r@.len() == i,
            forall|j: int| 0 <= j < i ==> (#[trigger] r@[j])@ == v@[j]@,
        decreases v@.len() - i,
    {
        r.push(v[i].clone());
        i += 1;
    }
    proof {
        assert(r.deep_view() =~= v.deep_view());
    }
    r
}

/// The default argument list built from stored type literals when a probe is
/// fired without arguments: `0` for an `int` slot, the text `undefined` for
/// every other slot.
pub open spec fn spec_default_args(types: Seq<Seq<char>>) -> Seq<Seq<char>> {
    Seq::new(
        types.len(),
        |i: int|
            if types[i] == "int"@ {
                "0"@
            } else {
                "undefined"@
            },
    )
}

/// Builds the default argument list for a stored type list.
pub fn default_args(types: &Vec<String>) -> (r: Vec<String>)
    ensures
        r.deep_view() == spec_default_args(types.deep_view()),
{
    let ghost tv = types.deep_view();
    let mut r: Vec<String> = Vec::new();
    let mut i: usize = 0;
    while i < types.len()
        invariant
            i <= types@.len(),
            tv == types.deep_view(),
            r@.len() == i,
            forall|j: int| 0 <= j < i ==> (#[trigger] r@[j])@ == spec_default_args(tv)[j],
        decreases types@.len() - i,
    {
        if crate::tags::str_eq(types[i].as_str(), "int") {
            r.push(String::from_str("0"));
        } else {
            r.push(String::from_str("undefined"));
        }
        i += 1;
    }
    proof {
        assert(r.deep_view() =~= spec_default_args(tv));
    }
    r
}

/// The type literals inferred from raw arguments when the fired probe is
/// unknown to the registry: `int` for an argument that parses as an unsigned
/// decimal, `string` otherwise.
pub open spec fn spec_infer_literals(args: Seq<Seq<char>>) -> Seq<Seq<char>> {
    Seq::new(
        args.len(),
        |i: int|
            if spec_parse_u64(args[i]) is Some {
                "int"@
            } else {
                "string"@
            },
    )
}

/// Infers type literals from raw arguments.
pub fn infer_literals(args: &Vec<String>) -> (r: Vec<String>)
    ensures
        r.deep_view() == spec_infer_literals(args.deep_view()),
{
    let ghost av = args.deep_view();
    let mut r: Vec<String> = Vec::new();
    let mut i: usize = 0;
    while i < args.len()
        invariant
            i <= args@.len(),
            av == args.deep_view(),
            r@.len() == i,
            forall|j: int| 0 <= j < i ==> (#[trigger] r@[j])@ == spec_infer_literals(av)[j],
        decreases args@.len() - i,
    {
        match parse_u64(args[i].as_str()) {
            Some(_) => r.push(String::from_str("int")),
            None => r.push(String::from_str("string")),
        }
        i += 1;
    }
    proof {
        assert(r.deep_view() =~= spec_infer_literals(av));
    }
    r
}

/// What a firing hands to the generated dispatcher: the probe's logical
/// name, the effective type literals, and the raw argument strings.
#[derive(Debug)]
pub struct FireRequest {
    pub name: String,
    pub types: Vec<String>,
    pub args: Vec<String>,
}

/// The mathematical value of a `FireRequest`.
pub struct FireRequestV {
    pub name: Seq<char>,
    pub types: Seq<Seq<char>>,
    pub args: Seq<Seq<char>>,
}

impl DeepView for FireRequest {
    type V = FireRequestV;

    open spec fn deep_view(&self) -> FireRequestV {
        FireRequestV {
            name: self.name@,
            types: self.types.deep_view(),
            args: self.args.deep_view(),
        }
    }
}

/// Relies on usdt::register_probes: forwards every probe defined in the
/// process image to the tracing runtime, registering each at most once even
/// over repeated or concurrent calls; on failure its description is
/// returned.  Nothing more is assumed of the outcome.
#[verifier::external_body]
fn register_probes_runtime() -> (r: Result<(), String>) {
    match usdt::register_probes() {
        Ok(()) => Ok(()),
        Err(e) => Err(format!("Failed to register DTrace probes: {e}")),
    }
}

/// The enable transition on the enabled flag: the new flag value, and
/// whether this call performs the registration side effect.
pub open spec fn spec_enable_step(enabled: bool) -> (bool, bool) {
    (true, !enabled)
}

/// How many of `n` successive enable transitions starting at `enabled`
/// perform the registration side effect.
pub open spec fn spec_enable_registrations(enabled: bool, n: nat) -> nat
    decreases n,
{
    if n == 0 {
        0
    } else {
        (if spec_enable_step(enabled).1 {
            1nat
        } else {
            0nat
        }) + spec_enable_registrations(spec_enable_step(enabled).0, (n - 1) as nat)
    }
}

/// Idempotent enable: over any number of successive enable calls on one
/// provider — each gated by the check-and-set on the enabled flag that
/// `enable` performs — the registration side effect happens at most once,
/// and exactly once when the provider starts disabled; an already enabled
/// provider never registers again.
pub proof fn lemma_enable_idempotent(enabled: bool, n: nat)
    ensures
        spec_enable_registrations(enabled, n) <= 1,
        !enabled && n >= 1 ==> spec_enable_registrations(enabled, n) == 1,
        enabled ==> spec_enable_registrations(enabled, n) == 0,
    decreases n,
{
    if n > 0 {
        lemma_enable_idempotent(true, (n - 1) as nat);
    }
}

impl DTraceProvider {
    /// Registers a probe under `name`, replacing any probe already stored
    /// under that name, and returns the probe handle.
    pub fn add_probe(&mut self, name: String, types: Vec<String>) -> (r: DTraceProbe)
        requires
            spec_provider_wf(old(self).deep_view()),
        ensures
            spec_provider_wf(final(self).deep_view()),
            r.deep_view() == (DTraceProbeV {
                name: name@,
                types: types.deep_view(),
                provider_name: old(self).deep_view().name,
            }),
            final(self).deep_view().name == old(self).deep_view().name,
            final(self).deep_view().module == old(self).deep_view().module,
            final(self).deep_view().enabled == old(self).deep_view().enabled,
            match spec_find_probe_from(old(self).deep_view().probes, name@, 0) {
                Some(i) => final(self).deep_view().probes == old(self).deep_view().probes.update(
                    i,
                    r.deep_view(),
                ),
                None => final(self).deep_view().probes == old(self).deep_view().probes.push(
                    r.deep_view(),
                ),
            },
    {
        let ghost pre = self.deep_view();
        let stored = DTraceProbe {
            name: name.clone(),
            types: copy_string_vec(&types),
            provider_name: self.name.clone(),
        };
        let handle = DTraceProbe { name, types, provider_name: self.name.clone() };
        let ghost sv = stored.deep_view();
        let ghost hv = handle.deep_view();
        proof {
            assert(sv.types =~= hv.types);
            assert(sv == hv);
        }
        match find_probe_from(&self.probes, &handle.name, 0) {
            Some(i) => {
                let ghost stored_g = stored;
                let _replaced = self.probes.remove(i);
                self.probes.insert(i, stored);
                proof {
                    assert(self.probes@ =~= old(self).probes@.update(i as int, stored_g));
                    assert forall|j: int| 0 <= j < self.probes.deep_view().len() implies
                        self.probes.deep_view()[j] == pre.probes.update(i as int, hv)[j] by {
                        assert(self.probes.deep_view()[j] == self.probes@[j].deep_view());
                    }
                    assert(self.probes.deep_view() =~= pre.probes.update(i as int, hv));
                    lemma_find_probe_from(pre.probes, hv.name, 0);
                    assert(pre.probes[i as int].name == hv.name);
                }
            },
            None => {
                let ghost stored_g = stored;
                self.probes.push(stored);
                proof {
                    assert forall|j: int| 0 <= j < self.probes.deep_view().len() implies
                        self.probes.deep_view()[j] == pre.probes.push(hv)[j] by {
                        assert(self.probes.deep_view()[j] == self.probes@[j].deep_view());
                        if j == self.probes@.len() - 1 {
                            assert(self.probes@[j] == stored_g);
                        }
                    }
                    assert(self.probes.deep_view() =~= pre.probes.push(hv));
                    lemma_find_probe_from(pre.probes, hv.name, 0);
                }
            },
        }
        handle
    }

    /// Marks the provider enabled and, when it was disabled, performs the
    /// one-time registration of the process's probes with the tracing
    /// runtime; a provider that is already enabled does nothing and cannot
    /// fail.  The flag is set before registering, so a registration failure
    /// leaves the provider enabled, as the caller requested.
    pub fn enable(&mut self) -> (r: Result<(), ProviderError>)
        ensures
            final(self).deep_view().enabled == spec_enable_step(old(self).deep_view().enabled).0,
            final(self).deep_view().name == old(self).deep_view().name,
            final(self).deep_view().module == old(self).deep_view().module,
            final(self).deep_view().probes == old(self).deep_view().probes,
            old(self).deep_view().enabled ==> r is Ok,
            r is Err ==> !old(self).deep_view().enabled,
    {
        if self.enabled {
            return Ok(());
        }
        self.enabled = true;
        match register_probes_runtime() {
            Ok(()) => Ok(()),
            Err(msg) => Err(ProviderError::RegistrationFailed(msg)),
        }
    }

    /// Marks the provider disabled; never fails and performs no side
    /// effect.
    pub fn disable(&mut self) -> (r: Result<(), ProviderError>)
        ensures
            final(self).deep_view().enabled == false,
            final(self).deep_view().name == old(self).deep_view().name,
            final(self).deep_view().module == old(self).deep_view().module,
            final(self).deep_view().probes == old(self).deep_view().probes,
            r is Ok,
    {
        self.enabled = false;
        Ok(())
    }

    /// What firing `probe_name` without arguments hands to the generated
    /// dispatcher: nothing when the provider is disabled; for a registered
    /// probe its stored types with the default argument list; for an
    /// unknown name an empty type and argument list, which the dispatcher
    /// resolves to a no-op.
    pub fn fire_request(&self, probe_name: &String) -> (r: Option<FireRequest>)
        ensures
            r.deep_view() == spec_fire_request(self.deep_view(), probe_name@),
    {
        if !self.enabled {
            return None;
        }
        match find_probe_from(&self.probes, probe_name, 0) {
            Some(i) => {
                let types = copy_string_vec(&self.probes[i].types);
                let args = default_args(&types);
                let req = FireRequest { name: probe_name.clone(), types, args };
                proof {
                    assert(self.probes@[i as int].deep_view() == self.deep_view().probes[i as int]);
                }
                Some(req)
            },
            None => {
                let types: Vec<String> = Vec::new();
                let args: Vec<String> = Vec::new();
                proof {
                    assert(types.deep_view() =~= Seq::<Seq<char>>::empty());
                    assert(args.deep_view() =~= Seq::<Seq<char>>::empty());
                }
                Some(FireRequest { name: probe_name.clone(), types, args })
            },
        }
    }

    /// What firing `probe_name` with arguments hands to the generated
    /// dispatcher: nothing when the provider is disabled; the stored types
    /// of a registered probe, or types inferred from the arguments for an
    /// unknown name, with the raw arguments passed through.
    pub fn fire_args_request(&self, probe_name: &String, args: &Vec<String>) -> (r: Option<
        FireRequest,
    >)
        ensures
            r.deep_view() == spec_fire_args_request(
                self.deep_view(),
                probe_name@,
                args.deep_view(),
            ),
    {
        if !self.enabled {
            return None;
        }
        let types = match find_probe_from(&self.probes, probe_name, 0) {
            Some(i) => {
                proof {
                    assert(self.probes@[i as int].deep_view() == self.deep_view().probes[i as int]);
                }
                copy_string_vec(&self.probes[i].types)
            },
            None => infer_literals(args),
        };
        Some(FireRequest { name: probe_name.clone(), types, args: copy_string_vec(args) })
    }

    /// Fires a probe by name with no arguments.  Always succeeds: a
    /// disabled provider or an unknown name is a no-op.  The request this
    /// call computes — `spec_fire_request` of the provider's state — is
    /// what the host layer hands to the generated dispatcher; trace
    /// emission itself lives outside this crate.
    pub fn fire(&self, probe_name: String) -> (r: Result<(), ProviderError>)
        ensures
            r is Ok,
    {
        let _request = self.fire_request(&probe_name);
        Ok(())
    }

    /// Fires a probe by name with raw string arguments.  Always succeeds;
    /// coercion failures downstream are resolved by defaulting, never by an
    /// error.
    pub fn fire_with_args(&self, probe_name: String, args: Vec<String>) -> (r: Result<
        (),
        ProviderError,
    >)
        ensures
            r is Ok,
    {
        let _request = self.fire_args_request(&probe_name, &args);
        Ok(())
    }
}

pub open spec fn spec_fire_request(p: DTraceProviderV, name: Seq<char>) -> Option<FireRequestV> {
    if !p.enabled {
        None
    } else {
        match spec_find_probe_from(p.probes, name, 0) {
            Some(i) => Some(
                FireRequestV {
                    name,
                    types: p.probes[i].types,
                    args: spec_default_args(p.probes[i].types),
                },
            ),
            None => Some(FireRequestV { name, types: Seq::empty(), args: Seq::empty() }),
        }
    }
}

pub open spec fn spec_fire_args_request(
    p: DTraceProviderV,
    name: Seq<char>,
    args: Seq<Seq<char>>,
) -> Option<FireRequestV> {
    if !p.enabled {
        None
    } else {
        let types = match spec_find_probe_from(p.probes, name, 0) {
            Some(i) => p.probes[i].types,
            None => spec_infer_literals(args),
        };
        Some(FireRequestV { name, types, args })
    }
}

/// What firing a probe handle without arguments hands to the dispatcher:
/// its stored types and the default argument list.  A handle does not
/// consult the provider's enabled flag.
pub open spec fn spec_probe_request(p: DTraceProbeV) -> FireRequestV {
    FireRequestV { name: p.name, types: p.types, args: spec_default_args(p.types) }
}

/// What firing a probe handle with arguments hands to the dispatcher: its
/// stored types and the raw arguments.
pub open spec fn spec_probe_args_request(p: DTraceProbeV, args: Seq<Seq<char>>) -> FireRequestV {
    FireRequestV { name: p.name, types: p.types, args }
}

impl DTraceProbe {
    /// The request this handle fires without arguments.
    pub fn fire_request(&self) -> (r: FireRequest)
        ensures
            r.deep_view() == spec_probe_request(self.deep_view()),
    {
        let types = copy_string_vec(&self.types);
        let args = default_args(&types);
        FireRequest { name: self.name.clone(), types, args }
    }

    /// Fires this probe with its default arguments.  Always succeeds.
    pub fn fire(&self) -> (r: Result<(), ProviderError>)
        ensures
            r is Ok,
    {
        let _request = self.fire_request();
        Ok(())
    }

    /// The request this handle fires with raw arguments.
    pub fn fire_args_request(&self, args: &Vec<String>) -> (r: FireRequest)
        ensures
            r.deep_view() == spec_probe_args_request(self.deep_view(), args.deep_view()),
    {
        FireRequest {
            name: self.name.clone(),
            types: copy_string_vec(&self.types),
            args: copy_string_vec(args),
        }
    }

    /// Fires this probe with raw string arguments.  Always succeeds.
    pub fn fire_with_args(&self, args: Vec<String>) -> (r: Result<(), ProviderError>)
        ensures
            r is Ok,
    {
        let _request = self.fire_args_request(&args);
        Ok(())
    }
}

/// Creates a provider with the given name and informational module, no
/// probes, and the enabled flag off.
pub fn create_dtrace_provider(name: String, module: Option<String>) -> (r: DTraceProvider)
    ensures
        r.deep_view().name == name@,
        r.deep_view().module == module.deep_view(),
        r.deep_view().probes == Seq::<DTraceProbeV>::empty(),
        r.deep_view().enabled == false,
        spec_provider_wf(r.deep_view()),
{
    let r = DTraceProvider { name, module, probes: Vec::new(), enabled: false };
    proof {
        assert(r.deep_view().probes =~= Seq::<DTraceProbeV>::empty());
    }
    r
}

/// Creates a provider; alias kept for callers that use the capitalized
/// spelling of the tracing runtime's name.
pub fn create_d_trace_provider(name: String, module: Option<String>) -> (r: DTraceProvider)
    ensures
        r.deep_view().name == name@,
        r.deep_view().module == module.deep_view(),
        r.deep_view().probes == Seq::<DTraceProbeV>::empty(),
        r.deep_view().enabled == false,
        spec_provider_wf(r.deep_view()),
{
    create_dtrace_provider(name, module)
}

} // verus!

