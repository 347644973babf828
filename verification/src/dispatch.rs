//! Runtime dispatch behaviour: selecting the declared probe for a fired
//! (name, argument list) pair and coercing each argument to its declared
//! slot type with fixed defaults — firing never fails on bad argument data.
use vstd::prelude::*;
use crate::tags::TypeTag;
use crate::num::{spec_parse_u64, parse_u64};
use crate::merge::{MergedProbe, MergedProbeV};

verus! {

/// One argument after coercion: the value handed to the statically typed
/// trace call.
#[derive(Debug)]
pub enum CoercedArg {
    UInt(u64),
    Text(String),
}

/// The mathematical value of a `CoercedArg`.
pub enum CoercedArgV {
    UInt(u64),
    Text(Seq<char>),
}

impl DeepView for CoercedArg {
    type V = CoercedArgV;

    open spec fn deep_view(&self) -> CoercedArgV {
        match self {
            CoercedArg::UInt(v) => CoercedArgV::UInt(*v),
            CoercedArg::Text(s) => CoercedArgV::Text(s@),
        }
    }
}

/// Which merge policy the dispatch table was generated under; declaration
/// and dispatch must agree on it.
#[derive(Clone, Copy, PartialEq, Eq, Structural, Debug)]
pub enum MergePolicy {
    Widening,
    VariantSplitting,
}

/// What one slot receives: an `Int` slot parses its argument as an unsigned
/// decimal, defaulting to 0 on a missing or malformed argument; every other
/// slot passes the argument's text, substituting `undefined` when absent.
pub open spec fn spec_coerce_slot(t: TypeTag, args: Seq<Seq<char>>, i: int) -> CoercedArgV {
    if t == TypeTag::Int {
        if 0 <= i < args.len() {
            match spec_parse_u64(args[i]) {
                Some(v) => CoercedArgV::UInt(v),
                None => CoercedArgV::UInt(0),
            }
        } else {
            CoercedArgV::UInt(0)
        }
    } else {
        if 0 <= i < args.len() {
            CoercedArgV::Text(args[i])
        } else {
            CoercedArgV::Text("undefined"@)
        }
    }
}

/// The coerced argument list of a declared signature: one value per declared
/// slot, extra arguments ignored, missing ones defaulted.
pub open spec fn spec_coerce_args(sig: Seq<TypeTag>, args: Seq<Seq<char>>) -> Seq<CoercedArgV> {
    Seq::new(sig.len(), |i: int| spec_coerce_slot(sig[i], args, i))
}

/// Coerces the raw arguments to a declared signature.  Never fails: bad or
/// missing argument data is resolved by the fixed defaults.
pub fn coerce_args(sig: &Vec<TypeTag>, args: &Vec<String>) -> (r: Vec<CoercedArg>)
    ensures
        r.deep_view() == spec_coerce_args(sig@, args.deep_view()),
{
    let ghost av = args.deep_view();
    let mut r: Vec<CoercedArg> = Vec::new();
    let mut i: usize = 0;
    while i < sig.len()
        invariant
            i <= sig@.len(),
            av == args.deep_view(),
            r@.len() == i,
            forall|j: int|
                0 <= j < i ==> (#[trigger] r@[j]).deep_view() == spec_coerce_slot(sig@[j], av, j),
        decreases sig@.len() - i,
    {
        let c: CoercedArg = if sig[i] == TypeTag::Int {
            if i < args.len() {
                match parse_u64(args[i].as_str()) {
                    Some(v) => CoercedArg::UInt(v),
                    None => CoercedArg::UInt(0),
                }
            } else {
                CoercedArg::UInt(0)
            }
        } else {
            if i < args.len() {
                CoercedArg::Text(args[i].clone())
            } else {
                CoercedArg::Text(undefined_text())
            }
        };
        proof {
            assert(c.deep_view() == spec_coerce_slot(sig@[i as int], av, i as int));
        }
        r.push(c);
        i += 1;
    }
    proof {
        assert forall|j: int| 0 <= j < r.deep_view().len() implies r.deep_view()[j]
            == spec_coerce_args(sig@, av)[j] by {
            assert(r@[j].deep_view() == r.deep_view()[j]);
        }
        assert(r.deep_view() =~= spec_coerce_args(sig@, av));
    }
    r
}

fn undefined_text() -> (r: String)
    ensures
        r@ == "undefined"@,
{
    String::from_str("undefined")
}

/// The type inferred for one raw argument when its probe is unknown: an
/// argument that parses as an unsigned decimal is `Int`, anything else `Str`.
pub open spec fn spec_infer_types(args: Seq<Seq<char>>) -> Seq<TypeTag> {
    Seq::new(
        args.len(),
        |i: int|
            if spec_parse_u64(args[i]) is Some {
                TypeTag::Int
            } else {
                TypeTag::Str
            },
    )
}

/// Infers a signature from the raw arguments alone.
pub fn infer_types(args: &Vec<String>) -> (r: Vec<TypeTag>)
    ensures
        r@ == spec_infer_types(args.deep_view()),
{
    let ghost av = args.deep_view();
    let mut r: Vec<TypeTag> = Vec::new();
    let mut i: usize = 0;
    while i < args.len()
        invariant
            i <= args@.len(),
            av == args.deep_view(),
            r@.len() == i,
            forall|j: int| 0 <= j < i ==> r@[j] == spec_infer_types(av)[j],
        decreases args@.len() - i,
    {
        let t = match parse_u64(args[i].as_str()) {
            Some(_) => TypeTag::Int,
            None => TypeTag::Str,
        };
        r.push(t);
        i += 1;
    }
    proof {
        assert(r@ =~= spec_infer_types(av));
    }
    r
}

/// Strict lexicographic order on identities, from position `i` on.
pub open spec fn spec_lex_less_from(a: Seq<char>, b: Seq<char>, i: int) -> bool
    decreases a.len() - i,
{
    if i < 0 || (i >= a.len() && i >= b.len()) {
        false
    } else if i >= a.len() {
        true
    } else if i >= b.len() {
        false
    } else if a[i] != b[i] {
        a[i] < b[i]
    } else {
        spec_lex_less_from(a, b, i + 1)
    }
}

pub open spec fn spec_lex_less(a: Seq<char>, b: Seq<char>) -> bool {
    spec_lex_less_from(a, b, 0)
}

fn lex_less_from(a: &str, b: &str, i: usize) -> (r: bool)
    requires
        i <= a@.len(),
        i <= b@.len(),
    ensures
        r == spec_lex_less_from(a@, b@, i as int),
    decreases a@.len() - i,
{
    let na = a.unicode_len();
    let nb = b.unicode_len();
    if i >= na && i >= nb {
        false
    } else if i >= na {
        true
    } else if i >= nb {
        false
    } else {
        let ca = a.get_char(i);
        let cb = b.get_char(i);
        if ca != cb {
            ca < cb
        } else {
            lex_less_from(a, b, i + 1)
        }
    }
}

fn lex_less(a: &str, b: &str) -> (r: bool)
    ensures
        r == spec_lex_less(a@, b@),
{
    lex_less_from(a, b, 0)
}

/// The first table entry at or after `i` whose identity is `name`.
pub open spec fn spec_find_identity_from(ps: Seq<MergedProbeV>, name: Seq<char>, i: int) -> Option<
    int,
>
    decreases ps.len() - i,
{
    if i < 0 || i >= ps.len() {
        None
    } else if ps[i].identity == name {
        Some(i)
    } else {
        spec_find_identity_from(ps, name, i + 1)
    }
}

fn find_identity_from(ps: &Vec<MergedProbe>, name: &String, i: usize) -> (r: Option<usize>)
    requires
        i <= ps@.len(),
    ensures
        match r {
            Some(k) => Some(k as int) == spec_find_identity_from(ps.deep_view(), name@, i as int)
                && k < ps@.len(),
            None => spec_find_identity_from(ps.deep_view(), name@, i as int) is None,
        },
    decreases ps@.len() - i,
{
    if i >= ps.len() {
        None
    } else if crate::tags::str_eq(ps[i].identity.as_str(), name.as_str()) {
        proof {
            assert(ps.deep_view()[i as int].identity == name@);
        }
        Some(i)
    } else {
        proof {
            assert(ps.deep_view()[i as int].identity != name@);
        }
        find_identity_from(ps, name, i + 1)
    }
}

/// The first table entry at or after `i` with this base name and exactly
/// this signature.
pub open spec fn spec_find_exact_from(
    ps: Seq<MergedProbeV>,
    name: Seq<char>,
    sig: Seq<TypeTag>,
    i: int,
) -> Option<int>
    decreases ps.len() - i,
{
    if i < 0 || i >= ps.len() {
        None
    } else if ps[i].base_name == name && ps[i].sig == sig {
        Some(i)
    } else {
        spec_find_exact_from(ps, name, sig, i + 1)
    }
}

fn find_exact_from(ps: &Vec<MergedProbe>, name: &String, sig: &Vec<TypeTag>, i: usize) -> (r:
    Option<usize>)
    requires
        i <= ps@.len(),
    ensures
        match r {
            Some(k) => Some(k as int) == spec_find_exact_from(
                ps.deep_view(),
                name@,
                sig@,
                i as int,
            ) && k < ps@.len(),
            None => spec_find_exact_from(ps.deep_view(), name@, sig@, i as int) is None,
        },
    decreases ps@.len() - i,
{
    if i >= ps.len() {
        None
    } else {
        let base_hit = crate::tags::str_eq(ps[i].base_name.as_str(), name.as_str());
        let sig_hit = crate::merge::tags_eq(&ps[i].sig, sig);
        proof {
            assert(ps.deep_view()[i as int].base_name == ps@[i as int].base_name@);
            assert(ps.deep_view()[i as int].sig == ps@[i as int].sig@);
        }
        if base_hit && sig_hit {
            Some(i)
        } else {
            find_exact_from(ps, name, sig, i + 1)
        }
    }
}

/// Among the entries at or after `i` with this base name, the one whose
/// identity is lexicographically first; earlier entries win ties.
pub open spec fn spec_min_variant_from(ps: Seq<MergedProbeV>, name: Seq<char>, i: int) -> Option<
    int,
>
    decreases ps.len() - i,
{
    if i < 0 || i >= ps.len() {
        None
    } else {
        let rest = spec_min_variant_from(ps, name, i + 1);
        if ps[i].base_name != name {
            rest
        } else {
            match rest {
                None => Some(i),
                Some(j) => if spec_lex_less(ps[j].identity, ps[i].identity) {
                    Some(j)
                } else {
                    Some(i)
                },
            }
        }
    }
}

fn min_variant_from(ps: &Vec<MergedProbe>, name: &String, i: usize) -> (r: Option<usize>)
    requires
        i <= ps@.len(),
    ensures
        match r {
            Some(k) => Some(k as int) == spec_min_variant_from(ps.deep_view(), name@, i as int)
                && k < ps@.len(),
            None => spec_min_variant_from(ps.deep_view(), name@, i as int) is None,
        },
    decreases ps@.len() - i,
{
    if i >= ps.len() {
        None
    } else {
        let rest = min_variant_from(ps, name, i + 1);
        let base_hit = crate::tags::str_eq(ps[i].base_name.as_str(), name.as_str());
        proof {
            assert(ps.deep_view()[i as int].base_name == ps@[i as int].base_name@);
        }
        if !base_hit {
            rest
        } else {
            match rest {
                None => Some(i),
                Some(j) => {
                    let jl = lex_less(ps[j].identity.as_str(), ps[i].identity.as_str());
                    proof {
                        assert(ps.deep_view()[j as int].identity == ps@[j as int].identity@);
                        assert(ps.deep_view()[i as int].identity == ps@[i as int].identity@);
                    }
                    if jl {
                        Some(j)
                    } else {
                        Some(i)
                    }
                },
            }
        }
    }
}

/// What firing produced: a trace call to one declared identity with coerced
/// arguments, or a safe no-op when the identity is unknown to the table.
#[derive(Debug)]
pub enum DispatchOutcome {
    NoOp,
    Fired { identity: String, args: Vec<CoercedArg> },
}

/// The mathematical value of a `DispatchOutcome`.
pub enum DispatchOutcomeV {
    NoOp,
    Fired { identity: Seq<char>, args: Seq<CoercedArgV> },
}

impl DeepView for DispatchOutcome {
    type V = DispatchOutcomeV;

    open spec fn deep_view(&self) -> DispatchOutcomeV {
        match self {
            DispatchOutcome::NoOp => DispatchOutcomeV::NoOp,
            DispatchOutcome::Fired { identity, args } => DispatchOutcomeV::Fired {
                identity: identity@,
                args: Seq::new(args@.len(), |i: int| args@[i].deep_view()),
            },
        }
    }
}

/// The dispatch decision for a fired probe.  Under the widening policy the
/// probe is selected by identity alone.  Under variant splitting it is
/// selected by base name and exact effective signature, falling back to the
/// lexicographically first identity declared for that base name.  A name the
/// table does not know is a no-op.
pub open spec fn spec_dispatch(
    table: Seq<MergedProbeV>,
    policy: MergePolicy,
    name: Seq<char>,
    types: Seq<TypeTag>,
    args: Seq<Seq<char>>,
) -> DispatchOutcomeV {
    match policy {
        MergePolicy::Widening => match spec_find_identity_from(table, name, 0) {
            None => DispatchOutcomeV::NoOp,
            Some(i) => DispatchOutcomeV::Fired {
                identity: table[i].identity,
                args: spec_coerce_args(table[i].sig, args),
            },
        },
        MergePolicy::VariantSplitting => match spec_find_exact_from(table, name, types, 0) {
            Some(i) => DispatchOutcomeV::Fired {
                identity: table[i].identity,
                args: spec_coerce_args(table[i].sig, args),
            },
            None => match spec_min_variant_from(table, name, 0) {
                Some(i) => DispatchOutcomeV::Fired {
                    identity: table[i].identity,
                    args: spec_coerce_args(table[i].sig, args),
                },
                None => DispatchOutcomeV::NoOp,
            },
        },
    }
}

/// Selects and coerces: the runtime half of the generated dispatcher,
/// deciding which declared trace call a fired (name, types, args) triple
/// reaches and with which argument values.
pub fn dispatch_probe(
    table: &Vec<MergedProbe>,
    policy: MergePolicy,
    name: &String,
    types: &Vec<TypeTag>,
    args: &Vec<String>,
) -> (r: DispatchOutcome)
    ensures
        r.deep_view() == spec_dispatch(table.deep_view(), policy, name@, types@, args.deep_view()),
{
    let entry: Option<usize> = match policy {
        MergePolicy::Widening => find_identity_from(table, name, 0),
        MergePolicy::VariantSplitting => {
            match find_exact_from(table, name, types, 0) {
                Some(i) => Some(i),
                None => min_variant_from(table, name, 0),
            }
        },
    };
    match entry {
        None => DispatchOutcome::NoOp,
        Some(i) => {
            let coerced = coerce_args(&table[i].sig, args);
            let out = DispatchOutcome::Fired { identity: table[i].identity.clone(), args: coerced };
            proof {
                assert(table@[i as int].deep_view() == table.deep_view()[i as int]);
                let ov = out.deep_view();
                let sv = spec_dispatch(
                    table.deep_view(),
                    policy,
                    name@,
                    types@,
                    args.deep_view(),
                );
                assert(ov matches DispatchOutcomeV::Fired { identity, args: a } ==> identity
                    == table.deep_view()[i as int].identity);
                assert(ov->Fired_args =~= sv->Fired_args);
                assert(ov->Fired_identity == sv->Fired_identity);
            }
            out
        },
    }
}

/// A probe name that no table entry carries — neither as an identity nor as
/// a base name — dispatches to the safe no-op, never to an error.
pub proof fn lemma_unknown_probe_noop(
    table: Seq<MergedProbeV>,
    policy: MergePolicy,
    name: Seq<char>,
    types: Seq<TypeTag>,
    args: Seq<Seq<char>>,
)
    requires
        forall|i: int|
            0 <= i < table.len() ==> (#[trigger] table[i]).identity != name && table[i].base_name
                != name,
    ensures
        spec_dispatch(table, policy, name, types, args) == DispatchOutcomeV::NoOp,
{
    lemma_find_identity_none(table, name, 0);
    lemma_find_exact_none(table, name, types, 0);
    lemma_min_variant_none(table, name, 0);
}

proof fn lemma_find_identity_none(table: Seq<MergedProbeV>, name: Seq<char>, i: int)
    requires
        0 <= i,
        forall|k: int| 0 <= k < table.len() ==> (#[trigger] table[k]).identity != name,
    ensures
        spec_find_identity_from(table, name, i) is None,
    decreases table.len() - i,
{
    if i < table.len() {
        lemma_find_identity_none(table, name, i + 1);
    }
}

proof fn lemma_find_exact_none(table: Seq<MergedProbeV>, name: Seq<char>, sig: Seq<TypeTag>, i: int)
    requires
        0 <= i,
        forall|k: int| 0 <= k < table.len() ==> (#[trigger] table[k]).base_name != name,
    ensures
        spec_find_exact_from(table, name, sig, i) is None,
    decreases table.len() - i,
{
    if i < table.len() {
        lemma_find_exact_none(table, name, sig, i + 1);
    }
}

proof fn lemma_min_variant_none(table: Seq<MergedProbeV>, name: Seq<char>, i: int)
    requires
        0 <= i,
        forall|k: int| 0 <= k < table.len() ==> (#[trigger] table[k]).base_name != name,
    ensures
        spec_min_variant_from(table, name, i) is None,
    decreases table.len() - i,
{
    if i < table.len() {
        lemma_min_variant_none(table, name, i + 1);
    }
}

} // verus!
