//! Signature merger: groups call-site records by probe name, deduplicates
//! exact signature repeats, and reconciles divergent signatures for one name
//! under either of two policies — a widening merge that collapses a group to
//! one canonical signature, or a variant-splitting merge that keeps every
//! distinct signature under a type-suffixed identity.
use vstd::prelude::*;
use crate::tags::{TypeTag, spec_tag_abbrev, tag_abbrev};
use crate::scan::{CallSiteRecord, RecordV};

verus! {

/// All distinct signatures observed for one probe name, in first-seen order.
#[derive(Debug)]
pub struct SigGroup {
    pub name: String,
    pub sigs: Vec<Vec<TypeTag>>,
}

/// The mathematical value of a `SigGroup`.
pub struct SigGroupV {
    pub name: Seq<char>,
    pub sigs: Seq<Seq<TypeTag>>,
}

/// The sequence of signature values held by a vector of signatures.
pub open spec fn sigs_dv(v: Seq<Vec<TypeTag>>) -> Seq<Seq<TypeTag>> {
    Seq::new(v.len(), |i: int| v[i]@)
}

impl DeepView for SigGroup {
    type V = SigGroupV;

    open spec fn deep_view(&self) -> SigGroupV {
        SigGroupV { name: self.name@, sigs: sigs_dv(self.sigs@) }
    }
}

/// One probe of the emitted ABI: a unique identity, the base probe name it
/// came from, its reconciled signature, and the observed signatures that fed
/// it.
#[derive(Debug)]
pub struct MergedProbe {
    pub identity: String,
    pub base_name: String,
    pub sig: Vec<TypeTag>,
    pub origins: Vec<Vec<TypeTag>>,
}

/// The mathematical value of a `MergedProbe`.
pub struct MergedProbeV {
    pub identity: Seq<char>,
    pub base_name: Seq<char>,
    pub sig: Seq<TypeTag>,
    pub origins: Seq<Seq<TypeTag>>,
}

impl DeepView for MergedProbe {
    type V = MergedProbeV;

    open spec fn deep_view(&self) -> MergedProbeV {
        MergedProbeV {
            identity: self.identity@,
            base_name: self.base_name@,
            sig: self.sig@,
            origins: sigs_dv(self.origins@),
        }
    }
}

/// The first group at or after `i` named `name`, or `gs.len()` when none is.
pub open spec fn spec_find_group_from(gs: Seq<SigGroupV>, name: Seq<char>, i: int) -> int
    decreases gs.len() - i,
{
    if i < 0 || i >= gs.len() {
        gs.len() as int
    } else if gs[i].name == name {
        i
    } else {
        spec_find_group_from(gs, name, i + 1)
    }
}

pub proof fn lemma_find_group_from(gs: Seq<SigGroupV>, name: Seq<char>, i: int)
    requires
        0 <= i <= gs.len(),
    ensures
        i <= spec_find_group_from(gs, name, i) <= gs.len(),
        spec_find_group_from(gs, name, i) < gs.len() ==> gs[spec_find_group_from(
            gs,
            name,
            i,
        )].name == name,
        forall|k: int|
            i <= k < spec_find_group_from(gs, name, i) ==> (#[trigger] gs[k].name) != name,
    decreases gs.len() - i,
{
    if i < gs.len() && gs[i].name != name {
        lemma_find_group_from(gs, name, i + 1);
    }
}

/// Folds one record into the groups: a new name opens a group, a repeated
/// exact signature is dropped, a new signature for a known name is appended.
pub open spec fn spec_add_record(gs: Seq<SigGroupV>, r: RecordV) -> Seq<SigGroupV> {
    let i = spec_find_group_from(gs, r.name, 0);
    if i == gs.len() {
        gs.push(SigGroupV { name: r.name, sigs: seq![r.tags] })
    } else if gs[i].sigs.contains(r.tags) {
        gs
    } else {
        gs.update(i, SigGroupV { name: gs[i].name, sigs: gs[i].sigs.push(r.tags) })
    }
}

/// The groups of a record sequence, folded left to right.
pub open spec fn spec_group_records(rs: Seq<RecordV>) -> Seq<SigGroupV>
    decreases rs.len(),
{
    if rs.len() == 0 {
        Seq::empty()
    } else {
        spec_add_record(spec_group_records(rs.drop_last()), rs.last())
    }
}

/// Grouping keeps group names pairwise distinct.
pub proof fn lemma_group_names_distinct(rs: Seq<RecordV>)
    ensures
        forall|i: int, j: int|
            0 <= i < j < spec_group_records(rs).len() ==> (#[trigger] spec_group_records(
                rs,
            )[i].name) != (#[trigger] spec_group_records(rs)[j].name),
    decreases rs.len(),
{
    if rs.len() > 0 {
        lemma_group_names_distinct(rs.drop_last());
        let gs = spec_group_records(rs.drop_last());
        let r = rs.last();
        lemma_find_group_from(gs, r.name, 0);
    }
}

pub fn tags_eq(a: &Vec<TypeTag>, b: &Vec<TypeTag>) -> (r: bool)
    ensures
        r == (a@ == b@),
{
    if a.len() != b.len() {
        return false;
    }
    let mut i: usize = 0;
    while i < a.len()
        invariant
            a@.len() == b@.len(),
            i <= a@.len(),
            forall|j: int| 0 <= j < i ==> a@[j] == b@[j],
        decreases a@.len() - i,
    {
        if a[i] != b[i] {
            return false;
        }
        i += 1;
    }
    proof {
        assert(a@ =~= b@);
    }
    true
}

fn contains_sig(sigs: &Vec<Vec<TypeTag>>, s: &Vec<TypeTag>) -> (r: bool)
    ensures
        r == sigs_dv(sigs@).contains(s@),
{
    let mut i: usize = 0;
    while i < sigs.len()
        invariant
            i <= sigs@.len(),
            forall|j: int| 0 <= j < i ==> (#[trigger] sigs_dv(sigs@)[j]) != s@,
        decreases sigs@.len() - i,
    {
        if tags_eq(&sigs[i], s) {
            proof {
                assert(sigs_dv(sigs@)[i as int] == s@);
            }
            return true;
        }
        i += 1;
    }
    false
}

fn find_group(gs: &Vec<SigGroup>, name: &String, i: usize) -> (r: usize)
    requires
        i <= gs@.len(),
    ensures
        r as int == spec_find_group_from(gs.deep_view(), name@, i as int),
        r <= gs@.len(),
    decreases gs@.len() - i,
{
    if i >= gs.len() {
        gs.len()
    } else if crate::tags::str_eq(gs[i].name.as_str(), name.as_str()) {
        proof {
            assert(gs.deep_view()[i as int].name == name@);
        }
        i
    } else {
        proof {
            assert(gs.deep_view()[i as int].name != name@);
        }
        find_group(gs, name, i + 1)
    }
}

/// Groups the records by probe name, deduplicating exact signature repeats
/// within a group; groups and signatures keep first-seen order.
pub fn group_records(records: &Vec<CallSiteRecord>) -> (r: Vec<SigGroup>)
    ensures
        r.deep_view() == spec_group_records(records.deep_view()),
{
    let mut gs: Vec<SigGroup> = Vec::new();
    proof {
        assert(gs.deep_view() =~= Seq::<SigGroupV>::empty());
        assert(records.deep_view().take(0) =~= Seq::<RecordV>::empty());
    }
    let mut k: usize = 0;
    while k < records.len()
        invariant
            k <= records@.len(),
            gs.deep_view() == spec_group_records(records.deep_view().take(k as int)),
        decreases records@.len() - k,
    {
        let ghost pre = gs.deep_view();
        let ghost rdv = records.deep_view();
        let rec = &records[k];
        let i = find_group(&gs, &rec.name, 0);
        if i == gs.len() {
            let mut sigs: Vec<Vec<TypeTag>> = Vec::new();
            sigs.push(crate::scan::copy_tag_vec(&rec.tags));
            let g = SigGroup { name: rec.name.clone(), sigs };
            gs.push(g);
            proof {
                assert(sigs_dv(gs@[pre.len() as int].sigs@) =~= seq![rec.deep_view().tags]);
                assert forall|j: int| 0 <= j < gs.deep_view().len() implies gs.deep_view()[j]
                    == spec_add_record(pre, rec.deep_view())[j] by {
                    assert(gs@[j].deep_view() == gs.deep_view()[j]);
                }
                assert(gs.deep_view() =~= spec_add_record(pre, rec.deep_view()));
            }
        } else {
            proof {
                assert(gs@[i as int].deep_view() == pre[i as int]);
            }
            if contains_sig(&gs[i].sigs, &rec.tags) {
                proof {
                    assert(gs.deep_view() =~= spec_add_record(pre, rec.deep_view()));
                }
            } else {
                let mut g = gs.remove(i);
                g.sigs.push(crate::scan::copy_tag_vec(&rec.tags));
                gs.insert(i, g);
                proof {
                    assert(gs@ =~= gs@.subrange(0, i as int) + seq![gs@[i as int]] + gs@.subrange(
                        i + 1,
                        gs@.len() as int,
                    ));
                    assert(sigs_dv(gs@[i as int].sigs@) =~= pre[i as int].sigs.push(
                        rec.deep_view().tags,
                    ));
                    assert forall|j: int| 0 <= j < gs.deep_view().len() implies gs.deep_view()[j]
                        == spec_add_record(pre, rec.deep_view())[j] by {
                        assert(gs@[j].deep_view() == gs.deep_view()[j]);
                    }
                    assert(gs.deep_view() =~= spec_add_record(pre, rec.deep_view()));
                }
            }
        }
        proof {
            assert(rdv.take(k + 1).drop_last() =~= rdv.take(k as int));
            assert(rdv.take(k + 1).last() == rec.deep_view());
        }
        k += 1;
    }
    proof {
        assert(records.deep_view().take(records@.len() as int) =~= records.deep_view());
    }
    gs
}

/// The largest argument count among the observed signatures.
pub open spec fn spec_max_arity(sigs: Seq<Seq<TypeTag>>) -> int
    decreases sigs.len(),
{
    if sigs.len() == 0 {
        0
    } else {
        let m = spec_max_arity(sigs.drop_last());
        if sigs.last().len() > m {
            sigs.last().len() as int
        } else {
            m
        }
    }
}

pub proof fn lemma_max_arity(sigs: Seq<Seq<TypeTag>>)
    ensures
        spec_max_arity(sigs) >= 0,
        forall|k: int| 0 <= k < sigs.len() ==> (#[trigger] sigs[k].len()) <= spec_max_arity(sigs),
        sigs.len() > 0 ==> exists|k: int|
            0 <= k < sigs.len() && (#[trigger] sigs[k].len()) == spec_max_arity(sigs),
    decreases sigs.len(),
{
    if sigs.len() > 0 {
        lemma_max_arity(sigs.drop_last());
        assert forall|k: int| 0 <= k < sigs.len() implies (#[trigger] sigs[k].len())
            <= spec_max_arity(sigs) by {
            if k < sigs.len() - 1 {
                assert(sigs.drop_last()[k] == sigs[k]);
            }
        }
        if sigs.last().len() > spec_max_arity(sigs.drop_last()) {
            assert(sigs[sigs.len() - 1].len() == spec_max_arity(sigs));
        } else {
            let m = spec_max_arity(sigs.drop_last());
            if sigs.len() - 1 > 0 {
                let k = choose|k: int|
                    0 <= k < sigs.drop_last().len() && (#[trigger] sigs.drop_last()[k].len()) == m;
                assert(sigs[k].len() == m);
            } else {
                assert(sigs[sigs.len() - 1].len() == spec_max_arity(sigs));
            }
        }
    }
}

/// Whether any observed signature declares `Int` at position `i`.
pub open spec fn spec_slot_is_int(sigs: Seq<Seq<TypeTag>>, i: int) -> bool {
    exists|k: int| 0 <= k < sigs.len() && i < (#[trigger] sigs[k]).len() && sigs[k][i] == TypeTag::Int
}

/// The widened signature of a group: arity is the largest seen, and a slot is
/// `Int` exactly when some observed signature declared `Int` there — `Int` is
/// sticky, every other slot (`Str` or `Json` alike) widens to `Str`.
pub open spec fn spec_merged_sig(sigs: Seq<Seq<TypeTag>>) -> Seq<TypeTag> {
    Seq::new(
        spec_max_arity(sigs) as nat,
        |i: int|
            if spec_slot_is_int(sigs, i) {
                TypeTag::Int
            } else {
                TypeTag::Str
            },
    )
}

/// Computes the widened signature of a group of observed signatures.
pub fn merged_sig(sigs: &Vec<Vec<TypeTag>>) -> (r: Vec<TypeTag>)
    ensures
        r@ == spec_merged_sig(sigs_dv(sigs@)),
{
    let ghost dv = sigs_dv(sigs@);
    proof {
        lemma_max_arity(dv);
    }
    let mut m: usize = 0;
    let mut k: usize = 0;
    while k < sigs.len()
        invariant
            k <= sigs@.len(),
            dv == sigs_dv(sigs@),
            m as int == spec_max_arity(dv.take(k as int)),
        decreases sigs@.len() - k,
    {
        proof {
            assert(dv.take(k + 1).drop_last() =~= dv.take(k as int));
            assert(dv.take(k + 1).last() == dv[k as int]);
            assert(dv[k as int].len() == sigs@[k as int]@.len());
        }
        if sigs[k].len() > m {
            m = sigs[k].len();
        }
        k += 1;
    }
    proof {
        assert(dv.take(dv.len() as int) =~= dv);
    }
    let mut r: Vec<TypeTag> = Vec::new();
    let mut i: usize = 0;
    while i < m
        invariant
            i <= m,
            m as int == spec_max_arity(dv),
            dv == sigs_dv(sigs@),
            r@.len() == i,
            forall|ii: int|
                0 <= ii < i ==> r@[ii] == (if spec_slot_is_int(dv, ii) {
                    TypeTag::Int
                } else {
                    TypeTag::Str
                }),
        decreases m - i,
    {
        let mut found = false;
        let mut k2: usize = 0;
        while k2 < sigs.len()
            invariant
                k2 <= sigs@.len(),
                dv == sigs_dv(sigs@),
                found == exists|kk: int|
                    0 <= kk < k2 && (i as int) < (#[trigger] dv[kk]).len() && dv[kk][i as int]
                        == TypeTag::Int,
            decreases sigs@.len() - k2,
        {
            if i < sigs[k2].len() && sigs[k2][i] == TypeTag::Int {
                proof {
                    assert((i as int) < dv[k2 as int].len() && dv[k2 as int][i as int]
                        == TypeTag::Int);
                }
                found = true;
            }
            k2 += 1;
        }
        if found {
            r.push(TypeTag::Int);
        } else {
            r.push(TypeTag::Str);
        }
        i += 1;
    }
    proof {
        assert(r@ =~= spec_merged_sig(dv));
    }
    r
}

/// The widening merge: one `MergedProbe` per observed probe name, under the
/// name itself, carrying the widened signature.
pub open spec fn spec_widening_merge_groups(gs: Seq<SigGroupV>) -> Seq<MergedProbeV> {
    Seq::new(
        gs.len(),
        |i: int|
            MergedProbeV {
                identity: gs[i].name,
                base_name: gs[i].name,
                sig: spec_merged_sig(gs[i].sigs),
                origins: gs[i].sigs,
            },
    )
}

pub open spec fn spec_widening_merge(rs: Seq<RecordV>) -> Seq<MergedProbeV> {
    spec_widening_merge_groups(spec_group_records(rs))
}

/// Merges all records under the widening policy.
pub fn widening_merge(records: &Vec<CallSiteRecord>) -> (r: Vec<MergedProbe>)
    ensures
        r.deep_view() == spec_widening_merge(records.deep_view()),
{
    let gs = group_records(records);
    let ghost gdv = gs.deep_view();
    let mut r: Vec<MergedProbe> = Vec::new();
    let mut i: usize = 0;
    while i < gs.len()
        invariant
            i <= gs@.len(),
            gdv == gs.deep_view(),
            r.deep_view() =~= spec_widening_merge_groups(gdv).take(i as int),
        decreases gs@.len() - i,
    {
        let sig = merged_sig(&gs[i].sigs);
        let p = MergedProbe {
            identity: gs[i].name.clone(),
            base_name: gs[i].name.clone(),
            sig,
            origins: copy_sig_vec(&gs[i].sigs),
        };
        let ghost pval = p;
        let ghost pv = p.deep_view();
        r.push(p);
        proof {
            assert(gs@[i as int].deep_view() == gdv[i as int]);
            assert(pv.identity == gdv[i as int].name);
            assert(pv.sig == spec_merged_sig(gdv[i as int].sigs));
            assert(pv.origins == gdv[i as int].sigs);
            assert(pv == spec_widening_merge_groups(gdv)[i as int]);
            assert(gdv.len() == gs@.len());
            assert(spec_widening_merge_groups(gdv).take(i as int).len() == i);
            assert(r.deep_view().len() == i + 1);
            assert(r@.len() == i + 1);
            assert(r@[i as int] == pval);
            assert forall|j: int| 0 <= j < r.deep_view().len() implies r.deep_view()[j]
                == spec_widening_merge_groups(gdv).take(i + 1)[j] by {
                assert(r@[j].deep_view() == r.deep_view()[j]);
                if j == i {
                    assert(r@[j] == pval);
                }
            }
            assert(r.deep_view() =~= spec_widening_merge_groups(gdv).take(i + 1));
        }
        i += 1;
    }
    proof {
        assert(spec_widening_merge_groups(gdv).take(gdv.len() as int) =~= spec_widening_merge_groups(
            gdv,
        ));
    }
    r
}

/// The identity suffix of a signature: one underscore-joined abbreviation
/// per slot, empty for a zero-arity signature.
pub open spec fn spec_suffix(sig: Seq<TypeTag>) -> Seq<char>
    decreases sig.len(),
{
    if sig.len() == 0 {
        Seq::empty()
    } else {
        "_"@ + spec_tag_abbrev(sig[0]) + spec_suffix(sig.skip(1))
    }
}

/// The emitted identity of one variant: the base name for a zero-arity
/// signature, else the base name followed by the signature's suffix.
pub open spec fn spec_variant_identity(name: Seq<char>, sig: Seq<TypeTag>) -> Seq<char> {
    name + spec_suffix(sig)
}

fn suffix_string(sig: &Vec<TypeTag>, i: usize) -> (r: String)
    requires
        i <= sig@.len(),
    ensures
        r@ == spec_suffix(sig@.skip(i as int)),
    decreases sig@.len() - i,
{
    if i >= sig.len() {
        let r = String::new();
        proof {
            assert(r@ =~= spec_suffix(sig@.skip(i as int)));
        }
        r
    } else {
        let mut s = String::from_str("_");
        s.append(tag_abbrev(sig[i]));
        let rest = suffix_string(sig, i + 1);
        s.append(rest.as_str());
        proof {
            let t = sig@.skip(i as int);
            assert(t[0] == sig@[i as int]);
            assert(t.skip(1) =~= sig@.skip(i + 1));
            assert(s@ == "_"@ + spec_tag_abbrev(t[0]) + spec_suffix(t.skip(1)));
        }
        s
    }
}

/// Whether some probe in the sequence already carries this identity.
pub open spec fn spec_has_identity(ps: Seq<MergedProbeV>, id: Seq<char>) -> bool {
    exists|k: int| 0 <= k < ps.len() && (#[trigger] ps[k]).identity == id
}

fn contains_identity(ps: &Vec<MergedProbe>, id: &String) -> (r: bool)
    ensures
        r == spec_has_identity(ps.deep_view(), id@),
{
    let mut i: usize = 0;
    while i < ps.len()
        invariant
            i <= ps@.len(),
            forall|j: int| 0 <= j < i ==> (#[trigger] ps.deep_view()[j]).identity != id@,
        decreases ps@.len() - i,
    {
        if crate::tags::str_eq(ps[i].identity.as_str(), id.as_str()) {
            proof {
                assert(ps.deep_view()[i as int].identity == id@);
            }
            return true;
        }
        proof {
            assert(ps.deep_view()[i as int].identity != id@);
        }
        i += 1;
    }
    false
}

/// The variants of one group: one probe per distinct observed signature, in
/// first-seen order, each under its type-suffixed identity.
pub open spec fn spec_variants_of_group(g: SigGroupV) -> Seq<MergedProbeV> {
    Seq::new(
        g.sigs.len(),
        |i: int|
            MergedProbeV {
                identity: spec_variant_identity(g.name, g.sigs[i]),
                base_name: g.name,
                sig: g.sigs[i],
                origins: seq![g.sigs[i]],
            },
    )
}

/// All variants of all groups, group order first, signature order within.
pub open spec fn spec_all_variants(gs: Seq<SigGroupV>) -> Seq<MergedProbeV>
    decreases gs.len(),
{
    if gs.len() == 0 {
        Seq::empty()
    } else {
        spec_all_variants(gs.drop_last()) + spec_variants_of_group(gs.last())
    }
}

/// Drops every probe whose identity was already emitted earlier, keeping the
/// first occurrence, so that emitted identities are pairwise distinct.
pub open spec fn spec_dedup_identities(ps: Seq<MergedProbeV>) -> Seq<MergedProbeV>
    decreases ps.len(),
{
    if ps.len() == 0 {
        Seq::empty()
    } else {
        let rest = spec_dedup_identities(ps.drop_last());
        if spec_has_identity(rest, ps.last().identity) {
            rest
        } else {
            rest.push(ps.last())
        }
    }
}

pub open spec fn spec_variant_merge(rs: Seq<RecordV>) -> Seq<MergedProbeV> {
    spec_dedup_identities(spec_all_variants(spec_group_records(rs)))
}

fn copy_probe(p: &MergedProbe) -> (r: MergedProbe)
    ensures
        r.deep_view() == p.deep_view(),
{
    MergedProbe {
        identity: p.identity.clone(),
        base_name: p.base_name.clone(),
        sig: crate::scan::copy_tag_vec(&p.sig),
        origins: copy_sig_vec(&p.origins),
    }
}

/// Merges all records under the variant-splitting policy: every distinct
/// signature keeps its own probe, and duplicate identities are dropped.
pub fn variant_merge(records: &Vec<CallSiteRecord>) -> (r: Vec<MergedProbe>)
    ensures
        r.deep_view() == spec_variant_merge(records.deep_view()),
{
    let gs = group_records(records);
    let ghost gdv = gs.deep_view();
    let mut vars: Vec<MergedProbe> = Vec::new();
    proof {
        assert(vars.deep_view() =~= Seq::<MergedProbeV>::empty());
        assert(gdv.take(0) =~= Seq::<SigGroupV>::empty());
    }
    let mut i: usize = 0;
    while i < gs.len()
        invariant
            i <= gs@.len(),
            gdv == gs.deep_view(),
            vars.deep_view() =~= spec_all_variants(gdv.take(i as int)),
        decreases gs@.len() - i,
    {
        let ghost g = gdv[i as int];
        proof {
            assert(gs@[i as int].deep_view() == g);
            assert(spec_variants_of_group(g).take(0) =~= Seq::<MergedProbeV>::empty());
        }
        let mut j: usize = 0;
        while j < gs[i].sigs.len()
            invariant
                i < gs@.len(),
                j <= gs@[i as int].sigs@.len(),
                gdv == gs.deep_view(),
                g == gdv[i as int],
                gs@[i as int].deep_view() == g,
                vars.deep_view() =~= spec_all_variants(gdv.take(i as int))
                    + spec_variants_of_group(g).take(j as int),
            decreases gs@[i as int].sigs@.len() - j,
        {
            let mut id = gs[i].name.clone();
            id.append(suffix_string(&gs[i].sigs[j], 0).as_str());
            let mut origins: Vec<Vec<TypeTag>> = Vec::new();
            origins.push(crate::scan::copy_tag_vec(&gs[i].sigs[j]));
            let p = MergedProbe {
                identity: id,
                base_name: gs[i].name.clone(),
                sig: crate::scan::copy_tag_vec(&gs[i].sigs[j]),
                origins,
            };
            let ghost pval = p;
            let ghost pv = p.deep_view();
            let ghost prev = vars.deep_view();
            vars.push(p);
            proof {
                assert(gs@[i as int].sigs@[j as int]@ == g.sigs[j as int]);
                assert(sigs_dv(pval.origins@) =~= seq![g.sigs[j as int]]);
                assert(pval.sig@ =~= g.sigs[j as int]);
                assert(g.sigs[j as int].skip(0) =~= g.sigs[j as int]);
                assert(pv.identity == spec_variant_identity(g.name, g.sigs[j as int]));
                assert(pv == spec_variants_of_group(g)[j as int]);
                assert(g.sigs.len() == gs@[i as int].sigs@.len());
                assert(spec_variants_of_group(g).len() == g.sigs.len());
                assert forall|k: int| 0 <= k < vars.deep_view().len() implies vars.deep_view()[k]
                    == prev.push(pv)[k] by {
                    assert(vars@[k].deep_view() == vars.deep_view()[k]);
                    if k == vars@.len() - 1 {
                        assert(vars@[k] == pval);
                    }
                }
                assert(vars.deep_view() =~= prev.push(pv));
                let vog = spec_variants_of_group(g);
                assert(vog.take(j + 1) =~= vog.take(j as int).push(vog[j as int]));
                assert(spec_all_variants(gdv.take(i as int)) + vog.take(j + 1) =~= (
                spec_all_variants(gdv.take(i as int)) + vog.take(j as int)).push(pv));
                assert(vars.deep_view() =~= spec_all_variants(gdv.take(i as int)) + vog.take(
                    j + 1,
                ));
            }
            j += 1;
        }
        proof {
            assert(spec_variants_of_group(g).take(g.sigs.len() as int) =~= spec_variants_of_group(
                g,
            ));
            assert(gdv.take(i + 1).drop_last() =~= gdv.take(i as int));
            assert(gdv.take(i + 1).last() == g);
        }
        i += 1;
    }
    proof {
        assert(gdv.take(gdv.len() as int) =~= gdv);
    }
    let ghost vdv = vars.deep_view();
    let mut out: Vec<MergedProbe> = Vec::new();
    proof {
        assert(out.deep_view() =~= Seq::<MergedProbeV>::empty());
        assert(vdv.take(0) =~= Seq::<MergedProbeV>::empty());
    }
    let mut k: usize = 0;
    while k < vars.len()
        invariant
            k <= vars@.len(),
            vdv == vars.deep_view(),
            out.deep_view() == spec_dedup_identities(vdv.take(k as int)),
        decreases vars@.len() - k,
    {
        proof {
            assert(vdv.take(k + 1).drop_last() =~= vdv.take(k as int));
            assert(vdv.take(k + 1).last() == vdv[k as int]);
            assert(vars@[k as int].deep_view() == vdv[k as int]);
        }
        if !contains_identity(&out, &vars[k].identity) {
            let p = copy_probe(&vars[k]);
            let ghost pval = p;
            let ghost prev = out.deep_view();
            out.push(p);
            proof {
                assert forall|j: int| 0 <= j < out.deep_view().len() implies out.deep_view()[j]
                    == prev.push(vdv[k as int])[j] by {
                    assert(out@[j].deep_view() == out.deep_view()[j]);
                    if j == out@.len() - 1 {
                        assert(out@[j] == pval);
                    }
                }
                assert(out.deep_view() =~= prev.push(vdv[k as int]));
            }
        }
        k += 1;
    }
    proof {
        assert(vdv.take(vdv.len() as int) =~= vdv);
    }
    out
}

/// Widening-merge correctness: when a probe name is observed with the
/// signatures `[Int]` and `[Str]` — in either order, with repeats — the
/// widened signature is `[Int]`: `Int` is sticky and wins per position.
pub proof fn lemma_widening_int_wins(sigs: Seq<Seq<TypeTag>>)
    requires
        sigs.contains(seq![TypeTag::Int]),
        forall|k: int|
            0 <= k < sigs.len() ==> (#[trigger] sigs[k]) == seq![TypeTag::Int] || sigs[k] == seq![
                TypeTag::Str,
            ],
    ensures
        spec_merged_sig(sigs) == seq![TypeTag::Int],
{
    lemma_max_arity(sigs);
    let w = choose|w: int| 0 <= w < sigs.len() && sigs[w] == seq![TypeTag::Int];
    assert(sigs[w].len() == 1);
    assert(spec_max_arity(sigs) >= 1);
    let m = choose|k: int|
        0 <= k < sigs.len() && (#[trigger] sigs[k].len()) == spec_max_arity(sigs);
    assert(sigs[m].len() == 1);
    assert(sigs[w][0] == TypeTag::Int);
    assert(spec_slot_is_int(sigs, 0));
    assert(spec_merged_sig(sigs) =~= seq![TypeTag::Int]);
}

/// Arity widening: a name observed with signatures of length 1 and length 3
/// (and none longer) merges to a signature of length 3, and every slot at
/// which no observed signature declared `Int` — the unseen trailing ones
/// included — defaults to `Str`.
pub proof fn lemma_arity_widening(sigs: Seq<Seq<TypeTag>>, a: Seq<TypeTag>, b: Seq<TypeTag>)
    requires
        sigs.contains(a),
        sigs.contains(b),
        a.len() == 1,
        b.len() == 3,
        forall|k: int| 0 <= k < sigs.len() ==> (#[trigger] sigs[k]).len() <= 3,
    ensures
        spec_merged_sig(sigs).len() == 3,
        forall|i: int|
            0 <= i < 3 && !spec_slot_is_int(sigs, i) ==> spec_merged_sig(sigs)[i] == TypeTag::Str,
{
    lemma_max_arity(sigs);
    let w = choose|w: int| 0 <= w < sigs.len() && sigs[w] == b;
    assert(sigs[w].len() == 3);
    assert(spec_max_arity(sigs) == 3);
}

proof fn lemma_abbrev_facts(t: TypeTag)
    ensures
        spec_tag_abbrev(t).len() >= 3,
        t == TypeTag::Int ==> spec_tag_abbrev(t)[0] == 'i',
        t == TypeTag::Str ==> spec_tag_abbrev(t)[0] == 's',
        t == TypeTag::Json ==> spec_tag_abbrev(t)[0] == 'j',
{
    reveal_strlit("int");
    reveal_strlit("str");
    reveal_strlit("json");
}

/// Variant-splitting disjointness, part one: the suffix encoding is
/// injective — two distinct signatures never share a suffix.
pub proof fn lemma_suffix_injective(s1: Seq<TypeTag>, s2: Seq<TypeTag>)
    requires
        s1 != s2,
    ensures
        spec_suffix(s1) != spec_suffix(s2),
    decreases s1.len(),
{
    reveal_strlit("_");
    if s1.len() == 0 {
        if s2.len() == 0 {
            assert(s1 =~= s2);
        } else {
            lemma_abbrev_facts(s2[0]);
            assert(spec_suffix(s2).len() >= 4);
        }
    } else if s2.len() == 0 {
        lemma_abbrev_facts(s1[0]);
        assert(spec_suffix(s1).len() >= 4);
    } else if s1[0] != s2[0] {
        lemma_abbrev_facts(s1[0]);
        lemma_abbrev_facts(s2[0]);
        let a1 = spec_tag_abbrev(s1[0]);
        let a2 = spec_tag_abbrev(s2[0]);
        assert(a1[0] != a2[0]);
        assert(spec_suffix(s1)[1] == a1[0]);
        assert(spec_suffix(s2)[1] == a2[0]);
        if spec_suffix(s1) == spec_suffix(s2) {
            assert(spec_suffix(s1)[1] == spec_suffix(s2)[1]);
        }
    } else {
        if s1.skip(1) == s2.skip(1) {
            assert(s1.skip(1).len() == s2.skip(1).len());
            assert(s1.len() == s2.len());
            assert forall|i: int| 0 <= i < s1.len() implies s1[i] == s2[i] by {
                if i > 0 {
                    assert(s1.skip(1)[i - 1] == s1[i]);
                    assert(s2.skip(1)[i - 1] == s2[i]);
                }
            }
            assert(s1 =~= s2);
        }
        lemma_suffix_injective(s1.skip(1), s2.skip(1));
        if spec_suffix(s1) == spec_suffix(s2) {
            let pre = "_"@ + spec_tag_abbrev(s1[0]);
            let r1 = spec_suffix(s1.skip(1));
            let r2 = spec_suffix(s2.skip(1));
            assert(spec_suffix(s1).len() == pre.len() + r1.len());
            assert(spec_suffix(s2).len() == pre.len() + r2.len());
            assert(r1.len() == r2.len());
            assert forall|idx: int| 0 <= idx < r1.len() implies r1[idx] == r2[idx] by {
                assert(spec_suffix(s1)[pre.len() + idx] == r1[idx]);
                assert(spec_suffix(s2)[pre.len() + idx] == r2[idx]);
            }
            assert(r1 =~= r2);
        }
    }
}

/// Variant-splitting disjointness: distinct signatures for one base name are
/// emitted under distinct identities — no two collapse to the same identity.
pub proof fn lemma_variant_identities_distinct(
    name: Seq<char>,
    s1: Seq<TypeTag>,
    s2: Seq<TypeTag>,
)
    requires
        s1 != s2,
    ensures
        spec_variant_identity(name, s1) != spec_variant_identity(name, s2),
{
    lemma_suffix_injective(s1, s2);
    let x1 = spec_suffix(s1);
    let x2 = spec_suffix(s2);
    if spec_variant_identity(name, s1) == spec_variant_identity(name, s2) {
        assert((name + x1).len() == (name + x2).len());
        assert(x1.len() == x2.len());
        assert forall|idx: int| 0 <= idx < x1.len() implies x1[idx] == x2[idx] by {
            assert((name + x1)[name.len() + idx] == x1[idx]);
            assert((name + x2)[name.len() + idx] == x2[idx]);
        }
        assert(x1 =~= x2);
    }
}

pub open spec fn spec_sigs_distinct(ss: Seq<Seq<TypeTag>>) -> bool {
    forall|i: int, j: int| 0 <= i < j < ss.len() ==> (#[trigger] ss[i]) != (#[trigger] ss[j])
}

/// Grouping deduplicates exactly: every group's signatures are pairwise
/// distinct.
pub proof fn lemma_group_sigs_distinct(rs: Seq<RecordV>)
    ensures
        forall|g: int|
            0 <= g < spec_group_records(rs).len() ==> spec_sigs_distinct(
                (#[trigger] spec_group_records(rs)[g]).sigs,
            ),
    decreases rs.len(),
{
    if rs.len() > 0 {
        lemma_group_sigs_distinct(rs.drop_last());
        let gs = spec_group_records(rs.drop_last());
        let r = rs.last();
        let i0 = spec_find_group_from(gs, r.name, 0);
        lemma_find_group_from(gs, r.name, 0);
        let gs2 = spec_group_records(rs);
        assert forall|g: int| 0 <= g < gs2.len() implies spec_sigs_distinct(
            (#[trigger] gs2[g]).sigs,
        ) by {
            if i0 == gs.len() {
                if g < gs.len() {
                    assert(gs2[g] == gs[g]);
                } else {
                    assert(gs2[g].sigs == seq![r.tags]);
                }
            } else if gs[i0].sigs.contains(r.tags) {
                assert(gs2[g] == gs[g]);
            } else if g == i0 {
                assert(spec_sigs_distinct(gs[i0].sigs));
                assert forall|x: int, y: int|
                    0 <= x < y < gs2[g].sigs.len() implies (#[trigger] gs2[g].sigs[x]) != (
                #[trigger] gs2[g].sigs[y]) by {
                    if y == gs2[g].sigs.len() - 1 {
                        assert(gs2[g].sigs[x] == gs[i0].sigs[x]);
                        assert(!gs[i0].sigs.contains(r.tags));
                        assert(gs[i0].sigs[x] != r.tags);
                    }
                }
            } else {
                assert(gs2[g] == gs[g]);
            }
        }
    }
}

/// Variant-splitting disjointness over a whole group: since a group's
/// signatures are pairwise distinct, the variants it emits carry pairwise
/// distinct identities.
pub proof fn lemma_variant_group_identities_distinct(g: SigGroupV)
    requires
        forall|i: int, j: int| 0 <= i < j < g.sigs.len() ==> (#[trigger] g.sigs[i]) != (#[trigger] g.sigs[j]),
    ensures
        forall|i: int, j: int|
            0 <= i < j < spec_variants_of_group(g).len() ==> (#[trigger] spec_variants_of_group(
                g,
            )[i].identity) != (#[trigger] spec_variants_of_group(g)[j].identity),
{
    assert forall|i: int, j: int|
        0 <= i < j < spec_variants_of_group(g).len() implies (#[trigger] spec_variants_of_group(
        g,
    )[i].identity) != (#[trigger] spec_variants_of_group(g)[j].identity) by {
        lemma_variant_identities_distinct(g.name, g.sigs[i], g.sigs[j]);
    }
}

/// Within one generation run every emitted identity is unique: the widening
/// merge emits one probe per distinct observed name.
pub proof fn lemma_widening_identities_unique(rs: Seq<RecordV>)
    ensures
        forall|i: int, j: int|
            0 <= i < j < spec_widening_merge(rs).len() ==> (#[trigger] spec_widening_merge(
                rs,
            )[i].identity) != (#[trigger] spec_widening_merge(rs)[j].identity),
{
    lemma_group_names_distinct(rs);
}

/// Within one generation run every emitted identity is unique: the
/// variant-splitting merge drops any later probe whose identity was already
/// emitted.
pub proof fn lemma_dedup_identities_unique(ps: Seq<MergedProbeV>)
    ensures
        forall|i: int, j: int|
            0 <= i < j < spec_dedup_identities(ps).len() ==> (#[trigger] spec_dedup_identities(
                ps,
            )[i].identity) != (#[trigger] spec_dedup_identities(ps)[j].identity),
    decreases ps.len(),
{
    if ps.len() > 0 {
        lemma_dedup_identities_unique(ps.drop_last());
        let rest = spec_dedup_identities(ps.drop_last());
        if !spec_has_identity(rest, ps.last().identity) {
            assert forall|i: int, j: int|
                0 <= i < j < rest.push(ps.last()).len() implies (#[trigger] rest.push(
                ps.last(),
            )[i].identity) != (#[trigger] rest.push(ps.last())[j].identity) by {
                if j == rest.len() {
                    assert(rest[i].identity != ps.last().identity);
                }
            }
        }
    }
}

/// Within one generation run every emitted identity is unique: the
/// variant-splitting merge as a whole emits pairwise distinct identities.
pub proof fn lemma_variant_merge_identities_unique(rs: Seq<RecordV>)
    ensures
        forall|i: int, j: int|
            0 <= i < j < spec_variant_merge(rs).len() ==> (#[trigger] spec_variant_merge(
                rs,
            )[i].identity) != (#[trigger] spec_variant_merge(rs)[j].identity),
{
    lemma_dedup_identities_unique(spec_all_variants(spec_group_records(rs)));
}

fn copy_sig_vec(v: &Vec<Vec<TypeTag>>) -> (r: Vec<Vec<TypeTag>>)
    ensures
        sigs_dv(r@) == sigs_dv(v@),
{
    let mut r: Vec<Vec<TypeTag>> = Vec::new();
    let mut i: usize = 0;
    while i < v.len()
        invariant
            i <= v@.len(),
            r@.len() == i,
            forall|j: int| 0 <= j < i ==> (#[trigger] r@[j])@ == v@[j]@,
        decreases v@.len() - i,
    {
        r.push(crate::scan::copy_tag_vec(&v[i]));
        i += 1;
    }
    proof {
        assert(sigs_dv(r@) =~= sigs_dv(v@));
    }
    r
}

} // verus!
