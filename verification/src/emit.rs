//! Declaration and dispatch emitters: render the merged probes into the
//! provider's static declaration text and into the matching runtime dispatch
//! source.  Both renderings are pure functions of their inputs, so repeated
//! generation over the same probes yields byte-identical artifacts.
//!
//! Identifiers in the declaration use a double underscore where the tracing
//! runtime displays a hyphen, as its declaration syntax prescribes.
use vstd::prelude::*;
use crate::tags::{TypeTag, spec_tag_param, tag_param, spec_tag_abbrev, tag_abbrev};
use crate::merge::{MergedProbe, MergedProbeV};

verus! {

/// The parameter list of one declaration after its first entry.
pub open spec fn spec_params_rest(sig: Seq<TypeTag>) -> Seq<char>
    decreases sig.len(),
{
    if sig.len() == 0 {
        Seq::empty()
    } else {
        ", "@ + spec_tag_param(sig[0]) + spec_params_rest(sig.skip(1))
    }
}

/// The parameter list of one declaration: one typed parameter per slot.
pub open spec fn spec_params_text(sig: Seq<TypeTag>) -> Seq<char> {
    if sig.len() == 0 {
        Seq::empty()
    } else {
        spec_tag_param(sig[0]) + spec_params_rest(sig.skip(1))
    }
}

fn params_rest(sig: &Vec<TypeTag>, i: usize) -> (r: String)
    requires
        i <= sig@.len(),
    ensures
        r@ == spec_params_rest(sig@.skip(i as int)),
    decreases sig@.len() - i,
{
    if i >= sig.len() {
        let r = String::new();
        proof {
            assert(r@ =~= spec_params_rest(sig@.skip(i as int)));
        }
        r
    } else {
        let mut s = String::from_str(", ");
        s.append(tag_param(sig[i]));
        let rest = params_rest(sig, i + 1);
        s.append(rest.as_str());
        proof {
            let t = sig@.skip(i as int);
            assert(t[0] == sig@[i as int]);
            assert(t.skip(1) =~= sig@.skip(i + 1));
        }
        s
    }
}

fn params_text(sig: &Vec<TypeTag>) -> (r: String)
    ensures
        r@ == spec_params_text(sig@),
{
    if sig.len() == 0 {
        let r = String::new();
        proof {
            assert(r@ =~= spec_params_text(sig@));
        }
        r
    } else {
        let mut s = String::from_str(tag_param(sig[0]));
        let rest = params_rest(sig, 1);
        s.append(rest.as_str());
        proof {
            assert(sig@.skip(0)[0] == sig@[0]);
            assert(sig@.skip(0).skip(1) =~= sig@.skip(1));
        }
        s
    }
}

/// One probe statement of the declaration.
pub open spec fn spec_probe_line(p: MergedProbeV) -> Seq<char> {
    "  probe "@ + p.identity + "("@ + spec_params_text(p.sig) + ");\n"@
}

/// The four fixed lifecycle probes appended to every provider block.
pub open spec fn spec_lifecycle_text() -> Seq<char> {
    "  probe probe__enabled();\n"@ + "  probe probe__disabled();\n"@
        + "  probe provider__enabled(char *);\n"@ + "  probe provider__disabled(char *);\n"@
}

/// The probe statements of all merged probes, in order.
pub open spec fn spec_probe_lines(ps: Seq<MergedProbeV>) -> Seq<char>
    decreases ps.len(),
{
    if ps.len() == 0 {
        Seq::empty()
    } else {
        spec_probe_lines(ps.drop_last()) + spec_probe_line(ps.last())
    }
}

/// One provider's declaration block: its probes, then the fixed lifecycle
/// probes, each block independently complete.
pub open spec fn spec_provider_block(name: Seq<char>, ps: Seq<MergedProbeV>) -> Seq<char> {
    "provider "@ + name + " {\n"@ + spec_probe_lines(ps) + spec_lifecycle_text() + "};\n"@
}

/// The whole declaration artifact: one block per provider name, the same
/// probe set replicated verbatim under each.
pub open spec fn spec_declarations(names: Seq<Seq<char>>, ps: Seq<MergedProbeV>) -> Seq<char>
    decreases names.len(),
{
    if names.len() == 0 {
        Seq::empty()
    } else {
        spec_declarations(names.drop_last(), ps) + spec_provider_block(names.last(), ps)
    }
}

fn probe_line(p: &MergedProbe) -> (r: String)
    ensures
        r@ == spec_probe_line(p.deep_view()),
{
    let mut s = String::from_str("  probe ");
    s.append(p.identity.as_str());
    s.append("(");
    let params = params_text(&p.sig);
    s.append(params.as_str());
    s.append(");\n");
    s
}

fn lifecycle_text() -> (r: String)
    ensures
        r@ == spec_lifecycle_text(),
{
    let mut s = String::from_str("  probe probe__enabled();\n");
    s.append("  probe probe__disabled();\n");
    s.append("  probe provider__enabled(char *);\n");
    s.append("  probe provider__disabled(char *);\n");
    s
}

fn provider_block(name: &String, probes: &Vec<MergedProbe>) -> (r: String)
    ensures
        r@ == spec_provider_block(name@, probes.deep_view()),
{
    let ghost pdv = probes.deep_view();
    let mut s = String::from_str("provider ");
    s.append(name.as_str());
    s.append(" {\n");
    let ghost head = "provider "@ + name@ + " {\n"@;
    proof {
        assert(s@ =~= head + spec_probe_lines(pdv.take(0)));
        assert(pdv.take(0) =~= Seq::<MergedProbeV>::empty());
    }
    let mut i: usize = 0;
    while i < probes.len()
        invariant
            i <= probes@.len(),
            pdv == probes.deep_view(),
            s@ == head + spec_probe_lines(pdv.take(i as int)),
        decreases probes@.len() - i,
    {
        let line = probe_line(&probes[i]);
        s.append(line.as_str());
        proof {
            assert(probes@[i as int].deep_view() == pdv[i as int]);
            assert(pdv.take(i + 1).drop_last() =~= pdv.take(i as int));
            assert(pdv.take(i + 1).last() == pdv[i as int]);
            assert(s@ =~= head + spec_probe_lines(pdv.take(i + 1)));
        }
        i += 1;
    }
    proof {
        assert(pdv.take(pdv.len() as int) =~= pdv);
    }
    let lc = lifecycle_text();
    s.append(lc.as_str());
    s.append("};\n");
    proof {
        assert(s@ =~= spec_provider_block(name@, pdv));
    }
    s
}

/// Renders the declaration artifact for the given provider names over one
/// merged probe set.
pub fn emit_declarations(providers: &Vec<String>, probes: &Vec<MergedProbe>) -> (r: String)
    ensures
        r@ == spec_declarations(providers.deep_view(), probes.deep_view()),
{
    let ghost ndv = providers.deep_view();
    let ghost pdv = probes.deep_view();
    let mut s = String::new();
    proof {
        assert(s@ =~= spec_declarations(ndv.take(0), pdv));
        assert(ndv.take(0) =~= Seq::<Seq<char>>::empty());
    }
    let mut k: usize = 0;
    while k < providers.len()
        invariant
            k <= providers@.len(),
            ndv == providers.deep_view(),
            pdv == probes.deep_view(),
            s@ == spec_declarations(ndv.take(k as int), pdv),
        decreases providers@.len() - k,
    {
        let block = provider_block(&providers[k], probes);
        s.append(block.as_str());
        proof {
            assert(providers@[k as int]@ == ndv[k as int]);
            assert(ndv.take(k + 1).drop_last() =~= ndv.take(k as int));
            assert(ndv.take(k + 1).last() == ndv[k as int]);
            assert(s@ =~= spec_declarations(ndv.take(k + 1), pdv));
        }
        k += 1;
    }
    proof {
        assert(ndv.take(ndv.len() as int) =~= ndv);
    }
    s
}

/// The quoted slot-kind list of one dispatch branch, after its first entry.
pub open spec fn spec_kinds_rest(sig: Seq<TypeTag>) -> Seq<char>
    decreases sig.len(),
{
    if sig.len() == 0 {
        Seq::empty()
    } else {
        ", \""@ + spec_tag_abbrev(sig[0]) + "\""@ + spec_kinds_rest(sig.skip(1))
    }
}

/// The quoted slot-kind list of one dispatch branch.
pub open spec fn spec_kinds_text(sig: Seq<TypeTag>) -> Seq<char> {
    if sig.len() == 0 {
        Seq::empty()
    } else {
        "\""@ + spec_tag_abbrev(sig[0]) + "\""@ + spec_kinds_rest(sig.skip(1))
    }
}

fn kinds_rest(sig: &Vec<TypeTag>, i: usize) -> (r: String)
    requires
        i <= sig@.len(),
    ensures
        r@ == spec_kinds_rest(sig@.skip(i as int)),
    decreases sig@.len() - i,
{
    if i >= sig.len() {
        let r = String::new();
        proof {
            assert(r@ =~= spec_kinds_rest(sig@.skip(i as int)));
        }
        r
    } else {
        let mut s = String::from_str(", \"");
        s.append(tag_abbrev(sig[i]));
        s.append("\"");
        let rest = kinds_rest(sig, i + 1);
        s.append(rest.as_str());
        proof {
            let t = sig@.skip(i as int);
            assert(t[0] == sig@[i as int]);
            assert(t.skip(1) =~= sig@.skip(i + 1));
        }
        s
    }
}

fn kinds_text(sig: &Vec<TypeTag>) -> (r: String)
    ensures
        r@ == spec_kinds_text(sig@),
{
    if sig.len() == 0 {
        let r = String::new();
        proof {
            assert(r@ =~= spec_kinds_text(sig@));
        }
        r
    } else {
        let mut s = String::from_str("\"");
        s.append(tag_abbrev(sig[0]));
        s.append("\"");
        let rest = kinds_rest(sig, 1);
        s.append(rest.as_str());
        proof {
            assert(sig@.skip(0)[0] == sig@[0]);
            assert(sig@.skip(0).skip(1) =~= sig@.skip(1));
        }
        s
    }
}

/// One branch of the generated dispatcher: selects by provider name and
/// probe identity, then hands the declared slot kinds, the effective type
/// literals and the raw arguments to the typed firing helper.
pub open spec fn spec_dispatch_line(pname: Seq<char>, p: MergedProbeV) -> Seq<char> {
    "        (\""@ + pname + "\", \""@ + p.identity + "\") => fire_typed(&["@ + spec_kinds_text(
        p.sig,
    ) + "], types, args),\n"@
}

pub open spec fn spec_dispatch_lines(pname: Seq<char>, ps: Seq<MergedProbeV>) -> Seq<char>
    decreases ps.len(),
{
    if ps.len() == 0 {
        Seq::empty()
    } else {
        spec_dispatch_lines(pname, ps.drop_last()) + spec_dispatch_line(pname, ps.last())
    }
}

pub open spec fn spec_dispatch_lines_all(names: Seq<Seq<char>>, ps: Seq<MergedProbeV>) -> Seq<char>
    decreases names.len(),
{
    if names.len() == 0 {
        Seq::empty()
    } else {
        spec_dispatch_lines_all(names.drop_last(), ps) + spec_dispatch_lines(names.last(), ps)
    }
}

pub open spec fn spec_dispatch_header() -> Seq<char> {
    "fn fire_probe(provider_name: &str, probe_name: &str, types: &[String], args: &[String]) {\n"@
        + "    match (provider_name, probe_name) {\n"@
}

pub open spec fn spec_dispatch_footer() -> Seq<char> {
    "        _ => {}\n"@ + "    }\n"@ + "}\n"@
}

/// The whole dispatch artifact: one branch per (provider, probe) pair and a
/// default no-op arm.
pub open spec fn spec_dispatch_text(names: Seq<Seq<char>>, ps: Seq<MergedProbeV>) -> Seq<char> {
    spec_dispatch_header() + spec_dispatch_lines_all(names, ps) + spec_dispatch_footer()
}

fn dispatch_line(pname: &String, p: &MergedProbe) -> (r: String)
    ensures
        r@ == spec_dispatch_line(pname@, p.deep_view()),
{
    let mut s = String::from_str("        (\"");
    s.append(pname.as_str());
    s.append("\", \"");
    s.append(p.identity.as_str());
    s.append("\") => fire_typed(&[");
    let kinds = kinds_text(&p.sig);
    s.append(kinds.as_str());
    s.append("], types, args),\n");
    s
}

/// Renders the dispatch artifact for the given provider names over one
/// merged probe set.
pub fn emit_dispatch(providers: &Vec<String>, probes: &Vec<MergedProbe>) -> (r: String)
    ensures
        r@ == spec_dispatch_text(providers.deep_view(), probes.deep_view()),
{
    let ghost ndv = providers.deep_view();
    let ghost pdv = probes.deep_view();
    let mut s = String::from_str("fn fire_probe(provider_name: &str, probe_name: &str, types: &[String], args: &[String]) {\n");
    s.append("    match (provider_name, probe_name) {\n");
    proof {
        assert(s@ =~= spec_dispatch_header() + spec_dispatch_lines_all(ndv.take(0), pdv));
        assert(ndv.take(0) =~= Seq::<Seq<char>>::empty());
    }
    let mut k: usize = 0;
    while k < providers.len()
        invariant
            k <= providers@.len(),
            ndv == providers.deep_view(),
            pdv == probes.deep_view(),
            s@ == spec_dispatch_header() + spec_dispatch_lines_all(ndv.take(k as int), pdv),
        decreases providers@.len() - k,
    {
        let ghost pre = s@;
        let ghost pname = ndv[k as int];
        proof {
            assert(providers@[k as int]@ == pname);
            assert(s@ =~= pre + spec_dispatch_lines(pname, pdv.take(0)));
            assert(pdv.take(0) =~= Seq::<MergedProbeV>::empty());
        }
        let mut j: usize = 0;
        while j < probes.len()
            invariant
                k < providers@.len(),
                j <= probes@.len(),
                ndv == providers.deep_view(),
                pdv == probes.deep_view(),
                pname == ndv[k as int],
                providers@[k as int]@ == pname,
                s@ == pre + spec_dispatch_lines(pname, pdv.take(j as int)),
            decreases probes@.len() - j,
        {
            let line = dispatch_line(&providers[k], &probes[j]);
            s.append(line.as_str());
            proof {
                assert(probes@[j as int].deep_view() == pdv[j as int]);
                assert(pdv.take(j + 1).drop_last() =~= pdv.take(j as int));
                assert(pdv.take(j + 1).last() == pdv[j as int]);
                assert(s@ =~= pre + spec_dispatch_lines(pname, pdv.take(j + 1)));
            }
            j += 1;
        }
        proof {
            assert(pdv.take(pdv.len() as int) =~= pdv);
            assert(ndv.take(k + 1).drop_last() =~= ndv.take(k as int));
            assert(ndv.take(k + 1).last() == pname);
            assert(s@ =~= spec_dispatch_header() + spec_dispatch_lines_all(ndv.take(k + 1), pdv));
        }
        k += 1;
    }
    proof {
        assert(ndv.take(ndv.len() as int) =~= ndv);
    }
    s.append("        _ => {}\n");
    s.append("    }\n");
    s.append("}\n");
    proof {
        assert(s@ =~= spec_dispatch_text(ndv, pdv));
    }
    s
}

} // verus!
