//! Source scanner and signature extractor: walks source text line by line for
//! probe-registration call sites and turns each into a record of probe name
//! and argument type tags.
//!
//! Two call shapes are recognized on a line: a quoted literal probe name
//! followed by quoted type literals, and a dynamic name built as a quoted
//! literal prefix concatenated with the counter of an enclosing simple
//! counted loop (`for (i = 1; i < 4; i++)`), which is expanded to one record
//! per counter value.  Comment lines, invalid names and anything the
//! extractor cannot resolve contribute zero records; scanning never fails.
use vstd::prelude::*;
use crate::tags::{
    TypeTag, spec_is_digit, is_digit, spec_is_name_start, is_name_start, spec_is_name_char,
    is_name_char, spec_valid_name, valid_name, spec_tag_of_literal, tag_of_literal, str_eq,
};
use crate::num::{spec_parse_u64, parse_u64, spec_u64_digits, u64_to_string};

verus! {

/// One extracted call site: a probe name and its ordered argument type tags.
#[derive(Debug)]
pub struct CallSiteRecord {
    pub name: String,
    pub tags: Vec<TypeTag>,
}

/// The mathematical value of a `CallSiteRecord`.
pub struct RecordV {
    pub name: Seq<char>,
    pub tags: Seq<TypeTag>,
}

impl DeepView for CallSiteRecord {
    type V = RecordV;

    open spec fn deep_view(&self) -> RecordV {
        RecordV { name: self.name@, tags: self.tags@ }
    }
}

/// A simple counted loop recovered from a `for` header: counter variable,
/// literal start bound, and exclusive literal end bound.
#[derive(Debug)]
pub struct LoopRange {
    pub var: String,
    pub start: u64,
    pub end: u64,
}

/// The mathematical value of a `LoopRange`.
pub struct LoopRangeV {
    pub var: Seq<char>,
    pub start: u64,
    pub end: u64,
}

impl DeepView for LoopRange {
    type V = LoopRangeV;

    open spec fn deep_view(&self) -> LoopRangeV {
        LoopRangeV { var: self.var@, start: self.start, end: self.end }
    }
}

/// The most counter values one dynamic call site may expand to; a wider
/// recovered loop is treated as unresolvable and contributes zero records.
pub const EXPANSION_CAP: u64 = 1000;

pub open spec fn spec_is_ws(c: char) -> bool {
    c == ' ' || c == '\t' || c == '\r'
}

fn is_ws(c: char) -> (r: bool)
    ensures
        r == spec_is_ws(c),
{
    c == ' ' || c == '\t' || c == '\r'
}

/// The first index at or after `i` holding a non-blank character, or the
/// line's length.
pub open spec fn spec_skip_ws(l: Seq<char>, i: int) -> int
    decreases l.len() - i,
{
    if i < 0 || i >= l.len() {
        l.len() as int
    } else if spec_is_ws(l[i]) {
        spec_skip_ws(l, i + 1)
    } else {
        i
    }
}

pub proof fn lemma_skip_ws_bounds(l: Seq<char>, i: int)
    requires
        0 <= i <= l.len(),
    ensures
        i <= spec_skip_ws(l, i) <= l.len(),
    decreases l.len() - i,
{
    if i < l.len() && spec_is_ws(l[i]) {
        lemma_skip_ws_bounds(l, i + 1);
    }
}

fn skip_ws(l: &str, i: usize) -> (r: usize)
    requires
        i <= l@.len(),
    ensures
        r as int == spec_skip_ws(l@, i as int),
        i <= r <= l@.len(),
{
    let n = l.unicode_len();
    let mut j = i;
    while j < n && is_ws(l.get_char(j))
        invariant
            n == l@.len(),
            i <= j <= n,
            spec_skip_ws(l@, i as int) == spec_skip_ws(l@, j as int),
        decreases n - j,
    {
        j += 1;
    }
    j
}

/// The index of the first occurrence of `c` at or after `i`, if any.
pub open spec fn spec_find_char(l: Seq<char>, i: int, c: char) -> Option<int>
    decreases l.len() - i,
{
    if i < 0 || i >= l.len() {
        None
    } else if l[i] == c {
        Some(i)
    } else {
        spec_find_char(l, i + 1, c)
    }
}

pub proof fn lemma_find_char_bounds(l: Seq<char>, i: int, c: char)
    requires
        0 <= i,
    ensures
        match spec_find_char(l, i, c) {
            Some(e) => i <= e < l.len() && l[e] == c,
            None => true,
        },
    decreases l.len() - i,
{
    if 0 <= i < l.len() && l[i] != c {
        lemma_find_char_bounds(l, i + 1, c);
    }
}

fn find_char(l: &str, i: usize, c: char) -> (r: Option<usize>)
    requires
        i <= l@.len(),
    ensures
        match r {
            Some(e) => Some(e as int) == spec_find_char(l@, i as int, c) && i <= e < l@.len(),
            None => spec_find_char(l@, i as int, c) is None,
        },
{
    let n = l.unicode_len();
    let mut j = i;
    while j < n
        invariant
            n == l@.len(),
            i <= j <= n,
            spec_find_char(l@, i as int, c) == spec_find_char(l@, j as int, c),
        decreases n - j,
    {
        if l.get_char(j) == c {
            return Some(j);
        }
        j += 1;
    }
    None
}

/// Whether `pat` occurs in `l` starting exactly at `i`.
pub open spec fn spec_starts_with_at(l: Seq<char>, i: int, pat: Seq<char>) -> bool {
    0 <= i && i + pat.len() <= l.len() && l.subrange(i, i + pat.len()) == pat
}

fn starts_with_at(l: &str, i: usize, pat: &str) -> (r: bool)
    requires
        i <= l@.len(),
    ensures
        r == spec_starts_with_at(l@, i as int, pat@),
{
    let n = l.unicode_len();
    let m = pat.unicode_len();
    if m > n - i {
        return false;
    }
    let mut k: usize = 0;
    while k < m
        invariant
            n == l@.len(),
            m == pat@.len(),
            i + m <= n,
            k <= m,
            forall|j: int| 0 <= j < k ==> l@[i + j] == pat@[j],
        decreases m - k,
    {
        if l.get_char(i + k) != pat.get_char(k) {
            proof {
                let sub = l@.subrange(i as int, i + m);
                assert(sub =~= pat@ ==> sub[k as int] == pat@[k as int]);
                assert(sub[k as int] == l@[i + k]);
            }
            return false;
        }
        k += 1;
    }
    proof {
        assert(l@.subrange(i as int, i + m) =~= pat@);
    }
    true
}

/// The first occurrence of `pat` at or after `i`, if any.
pub open spec fn spec_find_sub(l: Seq<char>, i: int, pat: Seq<char>) -> Option<int>
    decreases l.len() + 1 - i,
{
    if i < 0 || i + pat.len() > l.len() {
        None
    } else if spec_starts_with_at(l, i, pat) {
        Some(i)
    } else {
        spec_find_sub(l, i + 1, pat)
    }
}

fn find_sub(l: &str, i: usize, pat: &str) -> (r: Option<usize>)
    requires
        i <= l@.len(),
    ensures
        match r {
            Some(p) => Some(p as int) == spec_find_sub(l@, i as int, pat@) && i <= p && p
                + pat@.len() <= l@.len(),
            None => spec_find_sub(l@, i as int, pat@) is None,
        },
{
    let n = l.unicode_len();
    let m = pat.unicode_len();
    let mut j = i;
    while j <= n && m <= n - j
        invariant
            n == l@.len(),
            m == pat@.len(),
            i <= j,
            j <= n + 1,
            spec_find_sub(l@, i as int, pat@) == spec_find_sub(l@, j as int, pat@),
        decreases n + 1 - j,
    {
        if starts_with_at(l, j, pat) {
            return Some(j);
        }
        proof {
            if m == 0 {
                assert(l@.subrange(j as int, j as int) =~= pat@);
            }
        }
        j += 1;
    }
    None
}

/// The end of the run of name characters starting at `i`.
pub open spec fn spec_ident_end(l: Seq<char>, i: int) -> int
    decreases l.len() - i,
{
    if i < 0 || i >= l.len() {
        if i < 0 {
            0
        } else {
            l.len() as int
        }
    } else if spec_is_name_char(l[i]) {
        spec_ident_end(l, i + 1)
    } else {
        i
    }
}

fn ident_end(l: &str, i: usize) -> (r: usize)
    requires
        i <= l@.len(),
    ensures
        r as int == spec_ident_end(l@, i as int),
        i <= r <= l@.len(),
{
    let n = l.unicode_len();
    let mut j = i;
    while j < n && is_name_char(l.get_char(j))
        invariant
            n == l@.len(),
            i <= j <= n,
            spec_ident_end(l@, i as int) == spec_ident_end(l@, j as int),
        decreases n - j,
    {
        j += 1;
    }
    j
}

/// The end of the run of digits starting at `i`.
pub open spec fn spec_digits_end(l: Seq<char>, i: int) -> int
    decreases l.len() - i,
{
    if i < 0 || i >= l.len() {
        if i < 0 {
            0
        } else {
            l.len() as int
        }
    } else if spec_is_digit(l[i]) {
        spec_digits_end(l, i + 1)
    } else {
        i
    }
}

fn digits_end(l: &str, i: usize) -> (r: usize)
    requires
        i <= l@.len(),
    ensures
        r as int == spec_digits_end(l@, i as int),
        i <= r <= l@.len(),
{
    let n = l.unicode_len();
    let mut j = i;
    while j < n && is_digit(l.get_char(j))
        invariant
            n == l@.len(),
            i <= j <= n,
            spec_digits_end(l@, i as int) == spec_digits_end(l@, j as int),
        decreases n - j,
    {
        j += 1;
    }
    j
}

/// A quoted literal starting at `i`: yields the index of the closing quote
/// and the index just past it.  No escape sequences are interpreted.
pub open spec fn spec_parse_quoted(l: Seq<char>, i: int) -> Option<(int, int)> {
    if 0 <= i < l.len() && (l[i] == '\'' || l[i] == '"') {
        match spec_find_char(l, i + 1, l[i]) {
            Some(e) => Some((e, e + 1)),
            None => None,
        }
    } else {
        None
    }
}

pub proof fn lemma_parse_quoted_bounds(l: Seq<char>, i: int)
    requires
        0 <= i,
    ensures
        match spec_parse_quoted(l, i) {
            Some((e, after)) => i + 1 <= e < l.len() && after == e + 1,
            None => true,
        },
{
    if 0 <= i < l.len() && (l[i] == '\'' || l[i] == '"') {
        lemma_find_char_bounds(l, i + 1, l[i]);
    }
}

fn parse_quoted(l: &str, i: usize) -> (r: Option<(usize, usize)>)
    requires
        i <= l@.len(),
    ensures
        match r {
            Some((e, after)) => Some((e as int, after as int)) == spec_parse_quoted(
                l@,
                i as int,
            ) && i + 1 <= e < l@.len() && after == e + 1,
            None => spec_parse_quoted(l@, i as int) is None,
        },
{
    let n = l.unicode_len();
    if i >= n {
        return None;
    }
    let q = l.get_char(i);
    if q != '\'' && q != '"' {
        return None;
    }
    match find_char(l, i + 1, q) {
        Some(e) => Some((e, e + 1)),
        None => None,
    }
}

/// The argument-type list of a call site, read from the first `,` or `)`
/// after the probe-name argument: a possibly empty run of `, "literal"`
/// groups closed by `)`.  Anything else makes the call site unresolvable.
pub open spec fn spec_parse_type_args(l: Seq<char>, i: int) -> Option<(Seq<TypeTag>, int)>
    decreases l.len() - i,
    via parse_type_args_dec
{
    let j = spec_skip_ws(l, i);
    if j >= l.len() {
        None
    } else if l[j] == ')' {
        Some((Seq::empty(), j + 1))
    } else if l[j] == ',' {
        let k = spec_skip_ws(l, j + 1);
        match spec_parse_quoted(l, k) {
            Some((e, after)) => {
                let tag = spec_tag_of_literal(l.subrange(k + 1, e));
                match spec_parse_type_args(l, after) {
                    Some((rest, fin)) => Some((seq![tag] + rest, fin)),
                    None => None,
                }
            },
            None => None,
        }
    } else {
        None
    }
}

#[via_fn]
proof fn parse_type_args_dec(l: Seq<char>, i: int) {
    let j = spec_skip_ws(l, i);
    if 0 <= i <= l.len() {
        lemma_skip_ws_bounds(l, i);
    }
    if j < l.len() && l[j] != ')' && l[j] == ',' {
        lemma_skip_ws_bounds(l, j + 1);
        let k = spec_skip_ws(l, j + 1);
        lemma_parse_quoted_bounds(l, k);
    }
}

fn parse_type_args(l: &str, i: usize) -> (r: Option<(Vec<TypeTag>, usize)>)
    requires
        i <= l@.len(),
    ensures
        match r {
            Some(p) => spec_parse_type_args(l@, i as int) == Some((p.0@, p.1 as int)) && p.1
                <= l@.len(),
            None => spec_parse_type_args(l@, i as int) is None,
        },
    decreases l@.len() - i,
{
    let n = l.unicode_len();
    let j = skip_ws(l, i);
    if j >= n {
        return None;
    }
    let c = l.get_char(j);
    if c == ')' {
        let tags: Vec<TypeTag> = Vec::new();
        proof {
            assert(tags@ =~= Seq::<TypeTag>::empty());
        }
        return Some((tags, j + 1));
    }
    if c != ',' {
        return None;
    }
    let k = skip_ws(l, j + 1);
    match parse_quoted(l, k) {
        Some((e, after)) => {
            let lit = l.substring_char(k + 1, e);
            let tag = tag_of_literal(lit);
            match parse_type_args(l, after) {
                Some((rest, fin)) => {
                    let mut tags = rest;
                    tags.insert(0, tag);
                    proof {
                        assert(tags@ =~= seq![tag] + spec_parse_type_args(
                            l@,
                            after as int,
                        ).unwrap().0);
                    }
                    Some((tags, fin))
                },
                None => None,
            }
        },
        None => None,
    }
}

/// A simple counted loop header on one line:
/// `for (` an optional `let`/`var`, a counter, `= <start> ; <counter> <
/// <end> ; <counter> ++ )` with literal decimal bounds and a unit increment.
pub open spec fn spec_parse_loop_header(l: Seq<char>) -> Option<LoopRangeV> {
    let i0 = spec_skip_ws(l, 0);
    if !spec_starts_with_at(l, i0, "for"@) {
        None
    } else {
        let i1 = spec_skip_ws(l, i0 + 3);
        if !(i1 < l.len() && l[i1] == '(') {
            None
        } else {
            let i2 = spec_skip_ws(l, i1 + 1);
            let ie1 = spec_ident_end(l, i2);
            if !(ie1 > i2 && spec_is_name_start(l[i2])) {
                None
            } else {
                let w = l.subrange(i2, ie1);
                let span = if w == "let"@ || w == "var"@ {
                    let i3 = spec_skip_ws(l, ie1);
                    let ie2 = spec_ident_end(l, i3);
                    if ie2 > i3 && spec_is_name_start(l[i3]) {
                        Some((i3, ie2))
                    } else {
                        None
                    }
                } else {
                    Some((i2, ie1))
                };
                match span {
                    None => None,
                    Some((vs, ve)) => {
                        let var = l.subrange(vs, ve);
                        spec_parse_loop_bounds(l, var, ve)
                    },
                }
            }
        }
    }
}

/// The `= <start> ; <counter> < <end> ; <counter> ++ )` tail of a loop
/// header, read from just past the counter's declaration.
pub open spec fn spec_parse_loop_bounds(l: Seq<char>, var: Seq<char>, ve: int) -> Option<
    LoopRangeV,
> {
    let j0 = spec_skip_ws(l, ve);
    if !(j0 < l.len() && l[j0] == '=') {
        None
    } else {
        let j1 = spec_skip_ws(l, j0 + 1);
        let d1 = spec_digits_end(l, j1);
        if !(d1 > j1) {
            None
        } else {
            match spec_parse_u64(l.subrange(j1, d1)) {
                None => None,
                Some(start) => {
                    let j2 = spec_skip_ws(l, d1);
                    if !(j2 < l.len() && l[j2] == ';') {
                        None
                    } else {
                        let j3 = spec_skip_ws(l, j2 + 1);
                        let ie3 = spec_ident_end(l, j3);
                        if !(ie3 > j3 && l.subrange(j3, ie3) == var) {
                            None
                        } else {
                            let j4 = spec_skip_ws(l, ie3);
                            if !(j4 < l.len() && l[j4] == '<') {
                                None
                            } else {
                                let j5 = spec_skip_ws(l, j4 + 1);
                                let d2 = spec_digits_end(l, j5);
                                if !(d2 > j5) {
                                    None
                                } else {
                                    match spec_parse_u64(l.subrange(j5, d2)) {
                                        None => None,
                                        Some(end) => spec_parse_loop_tail(l, var, start, end, d2),
                                    }
                                }
                            }
                        }
                    }
                },
            }
        }
    }
}

/// The `; <counter> ++ )` tail closing a loop header.
pub open spec fn spec_parse_loop_tail(
    l: Seq<char>,
    var: Seq<char>,
    start: u64,
    end: u64,
    d2: int,
) -> Option<LoopRangeV> {
    let j6 = spec_skip_ws(l, d2);
    if !(j6 < l.len() && l[j6] == ';') {
        None
    } else {
        let j7 = spec_skip_ws(l, j6 + 1);
        let ie4 = spec_ident_end(l, j7);
        if !(ie4 > j7 && l.subrange(j7, ie4) == var && spec_starts_with_at(l, ie4, "++"@)) {
            None
        } else {
            let j8 = spec_skip_ws(l, ie4 + 2);
            if j8 < l.len() && l[j8] == ')' {
                Some(LoopRangeV { var, start, end })
            } else {
                None
            }
        }
    }
}

fn parse_loop_header(l: &str) -> (r: Option<LoopRange>)
    ensures
        r.deep_view() == spec_parse_loop_header(l@),
{
    proof {
        reveal_strlit("for");
        reveal_strlit("let");
        reveal_strlit("var");
        reveal_strlit("++");
    }
    let n = l.unicode_len();
    let i0 = skip_ws(l, 0);
    if !starts_with_at(l, i0, "for") {
        return None;
    }
    let i1 = skip_ws(l, i0 + 3);
    if !(i1 < n && l.get_char(i1) == '(') {
        return None;
    }
    let i2 = skip_ws(l, i1 + 1);
    let ie1 = ident_end(l, i2);
    if !(ie1 > i2 && is_name_start(l.get_char(i2))) {
        return None;
    }
    let w = l.substring_char(i2, ie1);
    let vs: usize;
    let ve: usize;
    if str_eq(w, "let") || str_eq(w, "var") {
        let i3 = skip_ws(l, ie1);
        let ie2 = ident_end(l, i3);
        if ie2 > i3 && is_name_start(l.get_char(i3)) {
            vs = i3;
            ve = ie2;
        } else {
            return None;
        }
    } else {
        vs = i2;
        ve = ie1;
    }
    let var = l.substring_char(vs, ve);
    let j0 = skip_ws(l, ve);
    if !(j0 < n && l.get_char(j0) == '=') {
        return None;
    }
    let j1 = skip_ws(l, j0 + 1);
    let d1 = digits_end(l, j1);
    if !(d1 > j1) {
        return None;
    }
    let start = match parse_u64(l.substring_char(j1, d1)) {
        Some(v) => v,
        None => {
            return None;
        },
    };
    let j2 = skip_ws(l, d1);
    if !(j2 < n && l.get_char(j2) == ';') {
        return None;
    }
    let j3 = skip_ws(l, j2 + 1);
    let ie3 = ident_end(l, j3);
    if !(ie3 > j3 && str_eq(l.substring_char(j3, ie3), var)) {
        return None;
    }
    let j4 = skip_ws(l, ie3);
    if !(j4 < n && l.get_char(j4) == '<') {
        return None;
    }
    let j5 = skip_ws(l, j4 + 1);
    let d2 = digits_end(l, j5);
    if !(d2 > j5) {
        return None;
    }
    let end = match parse_u64(l.substring_char(j5, d2)) {
        Some(v) => v,
        None => {
            return None;
        },
    };
    let j6 = skip_ws(l, d2);
    if !(j6 < n && l.get_char(j6) == ';') {
        return None;
    }
    let j7 = skip_ws(l, j6 + 1);
    let ie4 = ident_end(l, j7);
    if !(ie4 > j7 && str_eq(l.substring_char(j7, ie4), var) && starts_with_at(l, ie4, "++")) {
        return None;
    }
    let j8 = skip_ws(l, ie4 + 2);
    if j8 < n && l.get_char(j8) == ')' {
        Some(LoopRange { var: var.to_owned(), start, end })
    } else {
        None
    }
}

/// The records of one expanded dynamic call site: one per counter value in
/// `[k, end)` whose built name `prefix + decimal(k)` is a valid probe name.
pub open spec fn spec_expand(prefix: Seq<char>, tags: Seq<TypeTag>, k: int, end: int) -> Seq<
    RecordV,
>
    decreases end - k,
{
    if k >= end {
        Seq::empty()
    } else {
        let nm = prefix + spec_u64_digits(k as nat);
        let rest = spec_expand(prefix, tags, k + 1, end);
        if spec_valid_name(nm) {
            seq![RecordV { name: nm, tags }] + rest
        } else {
            rest
        }
    }
}

pub fn copy_tag_vec(v: &Vec<TypeTag>) -> (r: Vec<TypeTag>)
    ensures
        r@ == v@,
{
    let mut r: Vec<TypeTag> = Vec::new();
    let mut i: usize = 0;
    while i < v.len()
        invariant
            i <= v@.len(),
            r@ == v@.take(i as int),
        decreases v@.len() - i,
    {
        r.push(v[i]);
        proof {
            assert(v@.take(i + 1) =~= v@.take(i as int).push(v@[i as int]));
        }
        i += 1;
    }
    proof {
        assert(v@.take(v@.len() as int) =~= v@);
    }
    r
}

fn expand_records(prefix: &str, tags: &Vec<TypeTag>, k: u64, end: u64) -> (r: Vec<CallSiteRecord>)
    requires
        k <= end,
        end - k <= EXPANSION_CAP,
    ensures
        r.deep_view() == spec_expand(prefix@, tags@, k as int, end as int),
    decreases end - k,
{
    if k >= end {
        let r: Vec<CallSiteRecord> = Vec::new();
        proof {
            assert(r.deep_view() =~= spec_expand(prefix@, tags@, k as int, end as int));
        }
        r
    } else {
        let digits = u64_to_string(k);
        let mut nm = prefix.to_owned();
        nm.append(digits.as_str());
        let mut rest = expand_records(prefix, tags, k + 1, end);
        if valid_name(nm.as_str()) {
            let ghost old_dv = rest.deep_view();
            let rec = CallSiteRecord { name: nm, tags: copy_tag_vec(tags) };
            let ghost recv = rec.deep_view();
            rest.insert(0, rec);
            proof {
                assert forall|i: int| 0 <= i < rest.deep_view().len() implies rest.deep_view()[i]
                    == (seq![recv] + old_dv)[i] by {
                    assert(rest@[i].deep_view() == rest.deep_view()[i]);
                }
                assert(rest.deep_view() =~= seq![recv] + old_dv);
            }
        }
        rest
    }
}

/// The records contributed by one line's first probe-registration call, if
/// any: a static quoted name, or a quoted prefix concatenated with the
/// counter of the enclosing recovered loop.
pub open spec fn spec_call_records(l: Seq<char>, ctx: Option<LoopRangeV>) -> Seq<RecordV> {
    match spec_find_sub(l, 0, "addProbe("@) {
        None => Seq::empty(),
        Some(p) => {
            // the pattern "addProbe(" spans nine characters
            let j = spec_skip_ws(l, p + 9);
            match spec_parse_quoted(l, j) {
                None => Seq::empty(),
                Some((e, after)) => {
                    let name = l.subrange(j + 1, e);
                    let j2 = spec_skip_ws(l, after);
                    if j2 < l.len() && l[j2] == '+' {
                        let j3 = spec_skip_ws(l, j2 + 1);
                        let ie = spec_ident_end(l, j3);
                        if ie > j3 && spec_is_name_start(l[j3]) {
                            let var = l.subrange(j3, ie);
                            match spec_parse_type_args(l, ie) {
                                Some((tags, _fin)) => match ctx {
                                    Some(lr) => if lr.var == var && lr.start <= lr.end && lr.end
                                        - lr.start <= EXPANSION_CAP {
                                        spec_expand(name, tags, lr.start as int, lr.end as int)
                                    } else {
                                        Seq::empty()
                                    },
                                    None => Seq::empty(),
                                },
                                None => Seq::empty(),
                            }
                        } else {
                            Seq::empty()
                        }
                    } else {
                        match spec_parse_type_args(l, after) {
                            Some((tags, _fin)) => if spec_valid_name(name) {
                                seq![RecordV { name, tags }]
                            } else {
                                Seq::empty()
                            },
                            None => Seq::empty(),
                        }
                    }
                },
            }
        },
    }
}

fn parse_call(l: &str, ctx: &Option<LoopRange>) -> (r: Vec<CallSiteRecord>)
    ensures
        r.deep_view() == spec_call_records(l@, ctx.deep_view()),
{
    proof {
        reveal_strlit("addProbe(");
    }
    let n = l.unicode_len();
    let empty: Vec<CallSiteRecord> = Vec::new();
    proof {
        assert(empty.deep_view() =~= Seq::<RecordV>::empty());
    }
    let p = match find_sub(l, 0, "addProbe(") {
        Some(p) => p,
        None => {
            return empty;
        },
    };
    let j = skip_ws(l, p + 9);
    let (e, after) = match parse_quoted(l, j) {
        Some(q) => q,
        None => {
            return empty;
        },
    };
    let name = l.substring_char(j + 1, e);
    let j2 = skip_ws(l, after);
    if j2 < n && l.get_char(j2) == '+' {
        let j3 = skip_ws(l, j2 + 1);
        let ie = ident_end(l, j3);
        if ie > j3 && is_name_start(l.get_char(j3)) {
            let var = l.substring_char(j3, ie);
            let tags = match parse_type_args(l, ie) {
                Some((tags, _fin)) => tags,
                None => {
                    return empty;
                },
            };
            match ctx {
                Some(lr) => {
                    if str_eq(lr.var.as_str(), var) && lr.start <= lr.end && lr.end - lr.start
                        <= EXPANSION_CAP {
                        expand_records(name, &tags, lr.start, lr.end)
                    } else {
                        empty
                    }
                },
                None => empty,
            }
        } else {
            empty
        }
    } else {
        let tags = match parse_type_args(l, after) {
            Some((tags, _fin)) => tags,
            None => {
                return empty;
            },
        };
        if valid_name(name) {
            let rec = CallSiteRecord { name: name.to_owned(), tags };
            let mut r: Vec<CallSiteRecord> = Vec::new();
            r.push(rec);
            proof {
                assert(r.deep_view() =~= spec_call_records(l@, ctx.deep_view()));
            }
            r
        } else {
            empty
        }
    }
}

/// One line's contribution to the scan: its records, and the loop context
/// handed to the lines after it.  A comment line contributes nothing; a
/// recovered loop header installs itself as the context; a line holding a
/// closing brace clears it.
pub open spec fn spec_process_line(l: Seq<char>, ctx: Option<LoopRangeV>) -> (Seq<RecordV>, Option<
    LoopRangeV,
>) {
    let t = spec_skip_ws(l, 0);
    if spec_starts_with_at(l, t, "//"@) {
        (Seq::empty(), ctx)
    } else {
        match spec_parse_loop_header(l) {
            Some(lr) => (spec_call_records(l, Some(lr)), Some(lr)),
            None => {
                let recs = spec_call_records(l, ctx);
                if spec_find_char(l, 0, '}') is Some {
                    (recs, None)
                } else {
                    (recs, ctx)
                }
            },
        }
    }
}

fn process_line(l: &str, ctx: Option<LoopRange>) -> (r: (Vec<CallSiteRecord>, Option<LoopRange>))
    ensures
        r.0.deep_view() == spec_process_line(l@, ctx.deep_view()).0,
        r.1.deep_view() == spec_process_line(l@, ctx.deep_view()).1,
{
    proof {
        reveal_strlit("//");
    }
    let t = skip_ws(l, 0);
    if starts_with_at(l, t, "//") {
        let empty: Vec<CallSiteRecord> = Vec::new();
        proof {
            assert(empty.deep_view() =~= Seq::<RecordV>::empty());
        }
        return (empty, ctx);
    }
    match parse_loop_header(l) {
        Some(lr) => {
            let new_ctx = Some(lr);
            let recs = parse_call(l, &new_ctx);
            (recs, new_ctx)
        },
        None => {
            let recs = parse_call(l, &ctx);
            if find_char(l, 0, '}').is_some() {
                (recs, None)
            } else {
                (recs, ctx)
            }
        },
    }
}

/// Every record of the text from position `i` on, one line at a time,
/// carrying the loop context forward.
pub open spec fn spec_scan_from(t: Seq<char>, i: int, ctx: Option<LoopRangeV>) -> Seq<RecordV>
    decreases t.len() - i,
    via scan_from_dec
{
    if i < 0 || i >= t.len() {
        Seq::empty()
    } else {
        let e = match spec_find_char(t, i, '\n') {
            Some(e) => e,
            None => t.len() as int,
        };
        let line = t.subrange(i, e);
        let pl = spec_process_line(line, ctx);
        if e >= t.len() {
            pl.0
        } else {
            pl.0 + spec_scan_from(t, e + 1, pl.1)
        }
    }
}

#[via_fn]
proof fn scan_from_dec(t: Seq<char>, i: int, ctx: Option<LoopRangeV>) {
    if 0 <= i < t.len() {
        lemma_find_char_bounds(t, i, '\n');
    }
}

fn scan_from(t: &str, i: usize, ctx: Option<LoopRange>) -> (r: Vec<CallSiteRecord>)
    requires
        i <= t@.len(),
    ensures
        r.deep_view() == spec_scan_from(t@, i as int, ctx.deep_view()),
    decreases t@.len() - i,
{
    let n = t.unicode_len();
    if i >= n {
        let r: Vec<CallSiteRecord> = Vec::new();
        proof {
            assert(r.deep_view() =~= Seq::<RecordV>::empty());
        }
        return r;
    }
    let e = match find_char(t, i, '\n') {
        Some(e) => e,
        None => n,
    };
    let line = t.substring_char(i, e);
    let (mut recs, ctx2) = process_line(line, ctx);
    if e >= n {
        recs
    } else {
        let mut rest = scan_from(t, e + 1, ctx2);
        let ghost dv1 = recs.deep_view();
        let ghost dv2 = rest.deep_view();
        recs.append(&mut rest);
        proof {
            assert forall|k: int| 0 <= k < recs.deep_view().len() implies recs.deep_view()[k] == (
            dv1 + dv2)[k] by {
                assert(recs@[k].deep_view() == recs.deep_view()[k]);
            }
            assert(recs.deep_view() =~= dv1 + dv2);
        }
        recs
    }
}

/// Every call-site record of one text blob, in source order.
pub open spec fn spec_scan_text(t: Seq<char>) -> Seq<RecordV> {
    spec_scan_from(t, 0, None)
}

/// Scans one source text for probe-registration call sites.  Unresolvable or
/// invalid call sites are dropped silently: scanning never fails.
pub fn scan_text(t: &str) -> (r: Vec<CallSiteRecord>)
    ensures
        r.deep_view() == spec_scan_text(t@),
{
    scan_from(t, 0, None)
}

/// Every record of a collection of source texts, in order; the loop context
/// never crosses from one source into the next.
pub open spec fn spec_scan_sources(ss: Seq<Seq<char>>) -> Seq<RecordV>
    decreases ss.len(),
{
    if ss.len() == 0 {
        Seq::empty()
    } else {
        spec_scan_sources(ss.drop_last()) + spec_scan_text(ss.last())
    }
}

/// Scans a collection of source texts in order.
pub fn scan_sources(sources: &Vec<String>) -> (r: Vec<CallSiteRecord>)
    ensures
        r.deep_view() == spec_scan_sources(sources.deep_view()),
{
    let mut acc: Vec<CallSiteRecord> = Vec::new();
    proof {
        assert(acc.deep_view() =~= Seq::<RecordV>::empty());
        assert(sources.deep_view().take(0) =~= Seq::<Seq<char>>::empty());
    }
    let mut k: usize = 0;
    while k < sources.len()
        invariant
            k <= sources@.len(),
            acc.deep_view() == spec_scan_sources(sources.deep_view().take(k as int)),
        decreases sources@.len() - k,
    {
        let mut part = scan_text(sources[k].as_str());
        let ghost dv1 = acc.deep_view();
        let ghost dv2 = part.deep_view();
        acc.append(&mut part);
        proof {
            assert forall|i: int| 0 <= i < acc.deep_view().len() implies acc.deep_view()[i] == (dv1
                + dv2)[i] by {
                assert(acc@[i].deep_view() == acc.deep_view()[i]);
            }
            assert(acc.deep_view() =~= dv1 + dv2);
            let ss = sources.deep_view();
            assert(ss.take(k + 1).drop_last() =~= ss.take(k as int));
            assert(ss.take(k + 1).last() == ss[k as int]);
            assert(ss[k as int] == sources@[k as int]@);
        }
        k += 1;
    }
    proof {
        assert(sources.deep_view().take(sources@.len() as int) =~= sources.deep_view());
    }
    acc
}

} // verus!
