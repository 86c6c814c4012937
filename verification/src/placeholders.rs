//! Numbered placeholders (`$1`, `$2`, ...) in built SQL: finding the numbers
//! a query uses, renumbering them in order of appearance together with the
//! values bound to them, and dropping the values bound to a `LIMIT` or
//! `OFFSET` that is replaced.
use vstd::prelude::*;
use crate::filter::{FilterValue, FilterValueView, values_view};
use crate::text::{decimal, push_decimal, string_of};

verus! {

/// Whether `c` is an ASCII digit.
pub open spec fn is_digit(c: char) -> bool {
    '0' <= c <= '9'
}

/// The numbers of a list of `usize`.
pub open spec fn nats(v: Seq<usize>) -> Seq<nat> {
    v.map_values(|x: usize| x as nat)
}

/// The value of a digit character.
pub open spec fn digit_value(c: char) -> nat {
    (c as u32 - '0' as u32) as nat
}

/// The value of a run of ASCII digits.
pub open spec fn digits_value(s: Seq<char>) -> nat
    decreases s.len(),
{
    if s.len() == 0 {
        0
    } else {
        digits_value(s.drop_last()) * 10 + digit_value(s.last())
    }
}

/// The index after the run of ASCII digits that starts at `i`.
pub open spec fn digits_end(s: Seq<char>, i: int) -> int
    decreases s.len() - i,
{
    if 0 <= i < s.len() && is_digit(s[i]) {
        digits_end(s, i + 1)
    } else {
        i
    }
}

/// `digits_end` is at or after `i`, and everything in between is a digit.
pub proof fn lemma_digits_end(s: Seq<char>, i: int)
    requires
        0 <= i <= s.len(),
    ensures
        i <= digits_end(s, i) <= s.len(),
        forall|k: int| i <= k < digits_end(s, i) ==> is_digit(#[trigger] s[k]),
        digits_end(s, i) < s.len() ==> !is_digit(s[digits_end(s, i)]),
    decreases s.len() - i,
{
    if i < s.len() && is_digit(s[i]) {
        lemma_digits_end(s, i + 1);
    }
}

/// The number written after the `$` at `i`: the digits that follow, when
/// there are some and their value fits in `usize`.
pub open spec fn number_after(s: Seq<char>, i: int) -> Option<nat> {
    let j = digits_end(s, i + 1);
    if j > i + 1 && digits_value(s.subrange(i + 1, j)) <= usize::MAX {
        Some(digits_value(s.subrange(i + 1, j)))
    } else {
        None
    }
}

/// The placeholder numbers met from position `i` on, added to `seen` when
/// new: each `$` followed by digits is read as one number (skipped when its
/// value does not fit in `usize`).
pub open spec fn collect_from(s: Seq<char>, i: int, seen: Seq<nat>) -> Seq<nat>
    decreases s.len() - i,
{
    if i < 0 || i >= s.len() {
        seen
    } else {
        proof { lemma_digits_end(s, i + 1); }
        match number_after(s, i) {
            Some(n) => if s[i] == '$' && !seen.contains(n) {
                collect_from(s, digits_end(s, i + 1), seen.push(n))
            } else {
                collect_from(s, i + 1, seen)
            },
            None => collect_from(s, i + 1, seen),
        }
    }
}

/// The distinct numbers of the `$n` placeholders of `s`, in order of first
/// appearance.
pub open spec fn numbered_placeholders(s: Seq<char>) -> Seq<nat> {
    collect_from(s, 0, Seq::empty())
}

/// The number of the digits in `s[from..to]`, or `None` when it does not
/// fit in `usize`.
fn parse_digits(s: &str, from: usize, to: usize) -> (r: Option<usize>)
    requires
        from <= to <= s@.len(),
        forall|k: int| from <= k < to ==> is_digit(#[trigger] s@[k]),
    ensures
        digits_value(s@.subrange(from as int, to as int)) <= usize::MAX ==> r == Some(
            digits_value(s@.subrange(from as int, to as int)) as usize,
        ),
        digits_value(s@.subrange(from as int, to as int)) > usize::MAX ==> r is None,
{
    let mut value: usize = 0;
    let mut overflow = false;
    let mut k = from;
    while k < to
        invariant
            from <= k <= to <= s@.len(),
            forall|x: int| from <= x < to ==> is_digit(#[trigger] s@[x]),
            !overflow ==> value == digits_value(s@.subrange(from as int, k as int)),
            overflow ==> digits_value(s@.subrange(from as int, k as int)) > usize::MAX,
        decreases to - k,
    {
        let c = s.get_char(k);
        let d = (c as u32 - '0' as u32) as usize;
        proof {
            let sub = s@.subrange(from as int, k + 1);
            assert(sub.drop_last() =~= s@.subrange(from as int, k as int));
            assert(sub.last() == c);
            assert(d == digit_value(c));
        }
        if !overflow {
            match value.checked_mul(10) {
                Some(v10) => match v10.checked_add(d) {
                    Some(v) => value = v,
                    None => overflow = true,
                },
                None => overflow = true,
            }
        }
        k = k + 1;
    }
    if overflow { None } else { Some(value) }
}

/// The index after the ASCII digits of `s` starting at `from`.
fn skip_digits(s: &str, from: usize) -> (r: usize)
    requires
        from <= s@.len(),
    ensures
        r == digits_end(s@, from as int),
{
    proof { lemma_digits_end(s@, from as int); }
    let n = s.unicode_len();
    let mut j = from;
    while j < n && is_ascii_digit(s.get_char(j))
        invariant
            from <= j <= n,
            n == s@.len(),
            digits_end(s@, from as int) == digits_end(s@, j as int),
        decreases n - j,
    {
        j = j + 1;
    }
    j
}

/// Whether `c` is an ASCII digit.
fn is_ascii_digit(c: char) -> (r: bool)
    ensures
        r == is_digit(c),
{
    '0' <= c && c <= '9'
}

/// The number after the `$` at `i`, and the index after its digits.
fn number_at(s: &str, i: usize) -> (r: Option<(usize, usize)>)
    requires
        i < s@.len(),
    ensures
        match number_after(s@, i as int) {
            Some(n) => r == Some((n as usize, digits_end(s@, i + 1) as usize)),
            None => r is None,
        },
{
    let _n = s.unicode_len();
    let j = skip_digits(s, i + 1);
    proof { lemma_digits_end(s@, i + 1); }
    if j > i + 1 {
        match parse_digits(s, i + 1, j) {
            Some(n) => Some((n, j)),
            None => None,
        }
    } else {
        None
    }
}

/// Whether `v` holds `n`.
fn holds(v: &Vec<usize>, n: usize) -> (r: bool)
    ensures
        r == nats(v@).contains(n as nat),
{
    let ghost w = nats(v@);
    let mut k: usize = 0;
    while k < v.len()
        invariant
            k <= v@.len(),
            w == nats(v@),
            forall|j: int| 0 <= j < k ==> w[j] != n as nat,
        decreases v@.len() - k,
    {
        if v[k] == n {
            assert(w[k as int] == n as nat);
            return true;
        }
        k = k + 1;
    }
    proof {
        if w.contains(n as nat) {
            let j = choose|j: int| 0 <= j < w.len() && w[j] == n as nat;
        }
    }
    false
}

/// The distinct numbers of the `$n` placeholders of `sql`, in order of first
/// appearance.
pub fn collect_numbered_placeholders(sql: &str) -> (r: Vec<usize>)
    ensures
        nats(r@) == numbered_placeholders(sql@),
{
    let n = sql.unicode_len();
    let mut i: usize = 0;
    let mut ordered: Vec<usize> = Vec::new();
    assert(nats(ordered@) =~= Seq::<nat>::empty());
    while i < n
        invariant
            i <= n,
            n == sql@.len(),
            collect_from(sql@, i as int, nats(ordered@)) == numbered_placeholders(sql@),
        decreases n - i,
    {
        let ghost before = nats(ordered@);
        proof { lemma_digits_end(sql@, i + 1); }
        if sql.get_char(i) == '$' {
            if let Some((number, j)) = number_at(sql, i) {
                if !holds(&ordered, number) {
                    ordered.push(number);
                    assert(nats(ordered@) =~= before.push(number as nat));
                    i = j;
                    continue;
                }
            }
        }
        i = i + 1;
    }
    ordered
}

/// Position of the first `n` in `s`.
pub open spec fn index_in(s: Seq<nat>, n: nat) -> Option<nat>
    decreases s.len(),
{
    if s.len() == 0 {
        None
    } else if s[0] == n {
        Some(0)
    } else {
        match index_in(s.drop_first(), n) {
            Some(k) => Some(k + 1),
            None => None,
        }
    }
}

/// Where the value bound to the placeholder `old` of the input is among the
/// values: its position among the numbers the input SQL used; else,
/// for a number above them all (one the builder added), after them;
/// else nowhere.
pub open spec fn bind_position(old: nat, present: Seq<nat>, max_existing: nat) -> Option<nat> {
    match index_in(present, old) {
        Some(p) => Some(p),
        None => if old > max_existing { Some((present.len() + (old - (max_existing + 1))) as nat) } else { None },
    }
}

/// Renumbering so far: the old numbers met, in order (the new number of
/// `olds[k]` is `k + 1`), the text written, the values in their new order.
pub struct Renumbering {
    pub olds: Seq<nat>,
    pub out: Seq<char>,
    pub binds: Seq<FilterValueView>,
}

/// Renumbering from position `i` on: each `$n` is written with the new
/// number of `n`; the first time `n` is met, the value bound to it (see
/// `bind_position`), if there is one, comes next in the new order.
pub open spec fn renumber_from(
    s: Seq<char>,
    i: int,
    present: Seq<nat>,
    max_existing: nat,
    binds: Seq<FilterValueView>,
    st: Renumbering,
) -> Renumbering
    decreases s.len() - i,
{
    if i < 0 || i >= s.len() {
        st
    } else {
        proof { lemma_digits_end(s, i + 1); }
        let copy = Renumbering { olds: st.olds, out: st.out.push(s[i]), binds: st.binds };
        match number_after(s, i) {
            Some(old) => if s[i] == '$' {
                let next = digits_end(s, i + 1);
                match index_in(st.olds, old) {
                    Some(k) => renumber_from(s, next, present, max_existing, binds, Renumbering {
                        olds: st.olds,
                        out: st.out.push('$') + decimal(k + 1),
                        binds: st.binds,
                    }),
                    None => {
                        let moved = match bind_position(old, present, max_existing) {
                            Some(p) => if p < binds.len() { st.binds.push(binds[p as int]) } else { st.binds },
                            None => st.binds,
                        };
                        renumber_from(s, next, present, max_existing, binds, Renumbering {
                            olds: st.olds.push(old),
                            out: st.out.push('$') + decimal(st.olds.len() + 1),
                            binds: moved,
                        })
                    },
                }
            } else {
                renumber_from(s, i + 1, present, max_existing, binds, copy)
            },
            None => renumber_from(s, i + 1, present, max_existing, binds, copy),
        }
    }
}

/// The SQL with its `$n` placeholders renumbered `$1`, `$2`, ... in order
/// of first appearance, and the values in the matching order; when no
/// value moves, the SQL and the values as they were.
pub open spec fn renumber_spec(s: Seq<char>, binds: Seq<FilterValueView>, present: Seq<nat>, max_existing: nat) -> (
    Seq<char>,
    Seq<FilterValueView>,
) {
    let st = renumber_from(
        s,
        0,
        present,
        max_existing,
        binds,
        Renumbering { olds: Seq::empty(), out: Seq::empty(), binds: Seq::empty() },
    );
    if st.binds.len() == 0 { (s, binds) } else { (st.out, st.binds) }
}

/// Position of the first `n` in `v`.
fn position(v: &Vec<usize>, n: usize) -> (r: Option<usize>)
    ensures
        match index_in(nats(v@), n as nat) {
            Some(k) => r == Some(k as usize) && k < v@.len(),
            None => r is None,
        },
{
    let ghost w = nats(v@);
    assert(w.subrange(0, w.len() as int) =~= w);
    let mut k: usize = 0;
    while k < v.len()
        invariant
            k <= v@.len(),
            w == nats(v@),
            forall|j: int| 0 <= j < k ==> w[j] != n as nat,
            index_in(w, n as nat) == (match index_in(w.subrange(k as int, w.len() as int), n as nat) {
                Some(j) => Some((j + k) as nat),
                None => None::<nat>,
            }),
        decreases v@.len() - k,
    {
        let ghost rest = w.subrange(k as int, w.len() as int);
        assert(rest.drop_first() =~= w.subrange(k + 1, w.len() as int));
        if v[k] == n {
            return Some(k);
        }
        k = k + 1;
    }
    assert(w.subrange(k as int, w.len() as int) =~= Seq::<nat>::empty());
    None
}

/// Where the value bound to `old` is (see `bind_position`); `None` also
/// when the position does not fit in `usize` (it is then past the values).
fn bind_position_of(old: usize, present: &Vec<usize>, max_existing: usize) -> (r: Option<usize>)
    ensures
        match bind_position(old as nat, nats(present@), max_existing as nat) {
            Some(p) => if p <= usize::MAX { r == Some(p as usize) } else { r is None },
            None => r is None,
        },
{
    let ghost o = nats(present@);
    let _len = present.len();
    assert(o.len() == present@.len());
    match position(present, old) {
        Some(p) => {
            assert(bind_position(old as nat, o, max_existing as nat) == Some(p as nat));
            Some(p)
        },
        None => {
            assert(index_in(o, old as nat) is None);
            if old > max_existing {
                let extra = old - (max_existing + 1);
                assert(bind_position(old as nat, o, max_existing as nat) == Some((present@.len() + extra) as nat));
                present.len().checked_add(extra)
            } else {
                None
            }
        },
    }
}

/// The SQL with its `$n` placeholders renumbered in order of first
/// appearance and the bound values reordered to match (see
/// `renumber_spec`). `placeholder_numbers` are the numbers the
/// input SQL used, in order (the values are bound in that order), and
/// `max_existing_placeholder` the largest of them.
pub fn renumber_numbered_placeholders_with_binds(
    sql: &str,
    bind_values: &Vec<FilterValue>,
    placeholder_numbers: &Vec<usize>,
    max_existing_placeholder: usize,
) -> (r: (String, Vec<FilterValue>))
    ensures
        (r.0@, values_view(r.1@)) == renumber_spec(
            sql@,
            values_view(bind_values@),
            nats(placeholder_numbers@),
            max_existing_placeholder as nat,
        ),
{
    let ghost present = nats(placeholder_numbers@);
    let ghost binds = values_view(bind_values@);
    let bind_count = bind_values.len();
    let n = sql.unicode_len();
    let mut i: usize = 0;
    let mut olds: Vec<usize> = Vec::new();
    let mut out = String::new();
    let mut moved: Vec<FilterValue> = Vec::new();
    proof {
        assert(nats(olds@) =~= Seq::<nat>::empty());
        assert(values_view(moved@) =~= Seq::<FilterValueView>::empty());
    }
    while i < n
        invariant
            i <= n,
            n == sql@.len(),
            present == nats(placeholder_numbers@),
            binds == values_view(bind_values@),
            bind_count == bind_values@.len(),
            binds.len() == bind_values@.len(),
            2 * olds@.len() <= i,
            renumber_from(sql@, i as int, present, max_existing_placeholder as nat, binds, Renumbering {
                olds: nats(olds@),
                out: out@,
                binds: values_view(moved@),
            }) == renumber_from(sql@, 0, present, max_existing_placeholder as nat, binds, Renumbering {
                olds: Seq::empty(),
                out: Seq::empty(),
                binds: Seq::empty(),
            }),
        decreases n - i,
    {
        let ghost olds_v = nats(olds@);
        let ghost moved_v = values_view(moved@);
        let ghost out_v = out@;
        let ghost st = Renumbering { olds: olds_v, out: out_v, binds: moved_v };
        let c = sql.get_char(i);
        proof { lemma_digits_end(sql@, i + 1); }
        if c == '$' {
            if let Some((old, j)) = number_at(sql, i) {
                match position(&olds, old) {
                    Some(k) => {
                        out.push('$');
                        push_decimal(&mut out, k + 1);
                        assert(out@ =~= out_v.push('$') + decimal((k + 1) as nat));
                        assert(renumber_from(sql@, i as int, present, max_existing_placeholder as nat, binds, st)
                            == renumber_from(sql@, j as int, present, max_existing_placeholder as nat, binds, Renumbering {
                            olds: olds_v,
                            out: out@,
                            binds: moved_v,
                        }));
                    },
                    None => {
                        match bind_position_of(old, placeholder_numbers, max_existing_placeholder) {
                            Some(p) => {
                                if p < bind_values.len() {
                                    moved.push(bind_values[p].copy());
                                    assert(values_view(moved@) =~= moved_v.push(binds[p as int]));
                                }
                            },
                            None => {},
                        }
                        let fresh = olds.len() + 1;
                        olds.push(old);
                        assert(nats(olds@) =~= olds_v.push(old as nat));
                        out.push('$');
                        push_decimal(&mut out, fresh);
                        assert(out@ =~= out_v.push('$') + decimal((olds_v.len() + 1) as nat));
                        assert(renumber_from(sql@, i as int, present, max_existing_placeholder as nat, binds, st)
                            == renumber_from(sql@, j as int, present, max_existing_placeholder as nat, binds, Renumbering {
                            olds: nats(olds@),
                            out: out@,
                            binds: values_view(moved@),
                        }));
                    },
                }
                i = j;
                continue;
            }
        }
        out.push(c);
        i = i + 1;
    }
    if moved.len() == 0 {
        (string_of(sql), crate::filter::copy_values(bind_values))
    } else {
        (out, moved)
    }
}

/// A `LIMIT` / `OFFSET` clause, as far as bound values go: for each of its
/// expressions (`None` when absent), the text of the placeholder it is
/// (`None` for another expression).
pub enum LimitShape {
    /// `LIMIT <limit> [OFFSET <offset>]`.
    LimitOffset(Option<Option<String>>, Option<Option<String>>),
    /// `LIMIT <offset>, <limit>`.
    OffsetCommaLimit(Option<String>, Option<String>),
}

/// The value of the text `s` as `usize` (an optional `+`, then digits), or
/// `None` when it is not one or does not fit.
pub open spec fn usize_text_value(s: Seq<char>) -> Option<nat> {
    let digits = sign_stripped(s);
    if digits.len() > 0 && all_digits(digits) && digits_value(digits) <= usize::MAX {
        Some(digits_value(digits))
    } else {
        None
    }
}

/// `s` without a leading `+`.
pub open spec fn sign_stripped(s: Seq<char>) -> Seq<char> {
    if s.len() > 0 && s[0] == '+' { s.drop_first() } else { s }
}

/// Whether every character of `d` is an ASCII digit.
pub open spec fn all_digits(d: Seq<char>) -> bool {
    forall|k: int| 0 <= k < d.len() ==> is_digit(#[trigger] d[k])
}

/// What a placeholder stands for: an unnumbered one (`?` and the others),
/// or the number of `$n`; `None` for `$` followed by something that is not
/// a number.
pub open spec fn placeholder_index(ph: Seq<char>) -> Option<Option<nat>> {
    if ph == seq!['?'] {
        Some(None)
    } else if ph.len() > 0 && ph[0] == '$' {
        match usize_text_value(ph.drop_first()) {
            Some(n) => Some(Some(n)),
            None => None,
        }
    } else {
        Some(None)
    }
}

/// The placeholders of a `LIMIT` clause, in order (`LIMIT` then `OFFSET`,
/// or as written for `LIMIT <offset>, <limit>`), with what they stand for.
pub open spec fn limit_placeholders(shape: Option<LimitShapeView>) -> Seq<Option<nat>> {
    let one = |t: Option<Seq<char>>| match t {
        Some(ph) => match placeholder_index(ph) {
            Some(x) => seq![x],
            None => Seq::empty(),
        },
        None => Seq::empty(),
    };
    match shape {
        None => Seq::empty(),
        Some(LimitShapeView::LimitOffset(limit, offset)) => one(limit.unwrap_or(None)) + one(offset.unwrap_or(None)),
        Some(LimitShapeView::OffsetCommaLimit(offset, limit)) => one(offset) + one(limit),
    }
}

/// The abstract content of a `LimitShape`.
pub enum LimitShapeView {
    LimitOffset(Option<Option<Seq<char>>>, Option<Option<Seq<char>>>),
    OffsetCommaLimit(Option<Seq<char>>, Option<Seq<char>>),
}

/// The abstract content of an optional text.
pub open spec fn opt_text(t: Option<String>) -> Option<Seq<char>> {
    match t {
        Some(s) => Some(s@),
        None => None,
    }
}

/// The abstract content of a `LimitShape`.
pub open spec fn limit_view(shape: Option<LimitShape>) -> Option<LimitShapeView> {
    match shape {
        None => None,
        Some(LimitShape::LimitOffset(limit, offset)) => Some(LimitShapeView::LimitOffset(
            match limit {
                Some(t) => Some(opt_text(t)),
                None => None,
            },
            match offset {
                Some(t) => Some(opt_text(t)),
                None => None,
            },
        )),
        Some(LimitShape::OffsetCommaLimit(offset, limit)) => Some(
            LimitShapeView::OffsetCommaLimit(opt_text(offset), opt_text(limit)),
        ),
    }
}

/// The numbers among what placeholders stand for, in order.
pub open spec fn numbered(items: Seq<Option<nat>>) -> Seq<nat>
    decreases items.len(),
{
    if items.len() == 0 {
        Seq::empty()
    } else {
        let rest = numbered(items.drop_last());
        match items.last() {
            Some(n) => rest.push(n),
            None => rest,
        }
    }
}

/// At most two numbers, largest first.
pub open spec fn sort_desc2(p: Seq<nat>) -> Seq<nat> {
    if p.len() == 2 && p[0] < p[1] { seq![p[1], p[0]] } else { p }
}

/// The values with the value of each placeholder number removed, in the
/// order given (the number `n` is the value at `n - 1`; numbers past the
/// values remove nothing).
pub open spec fn remove_numbered<V>(b: Seq<V>, ps: Seq<nat>) -> Seq<V>
    decreases ps.len(),
{
    if ps.len() == 0 {
        b
    } else {
        let zb: int = if ps[0] >= 1 { ps[0] - 1 } else { 0 };
        let b2 = if zb < b.len() { b.remove(zb) } else { b };
        remove_numbered(b2, ps.drop_first())
    }
}

/// The values without those bound to the placeholders of a `LIMIT` clause:
/// the values of its numbered placeholders when there are some (largest
/// number first), else as many values from the end as it has placeholders.
pub open spec fn trim_spec_binds<V>(shape: Option<LimitShapeView>, b: Seq<V>) -> Seq<V> {
    let items = limit_placeholders(shape);
    let ps = numbered(items);
    if ps.len() > 0 {
        remove_numbered(b, sort_desc2(ps))
    } else {
        b.subrange(0, if items.len() <= b.len() { b.len() - items.len() } else { 0 })
    }
}

/// The value of `s` as `usize` (see `usize_text_value`).
fn parse_usize_text(s: &str) -> (r: Option<usize>)
    ensures
        match usize_text_value(s@) {
            Some(n) => r == Some(n as usize),
            None => r is None,
        },
{
    let n = s.unicode_len();
    let start: usize = if n > 0 && s.get_char(0) == '+' { 1 } else { 0 };
    let ghost digits = sign_stripped(s@);
    assert(digits =~= s@.subrange(start as int, n as int));
    if start >= n {
        return None;
    }
    let mut k = start;
    while k < n
        invariant
            start <= k <= n,
            n == s@.len(),
            digits == s@.subrange(start as int, n as int),
            digits == sign_stripped(s@),
            forall|x: int| start <= x < k ==> is_digit(#[trigger] s@[x]),
        decreases n - k,
    {
        if !is_ascii_digit(s.get_char(k)) {
            proof {
                let bad = k - start;
                assert(digits[bad] == s@[k as int]);
                assert(!is_digit(digits[bad]));
                assert(!all_digits(digits));
            }
            return None;
        }
        k = k + 1;
    }
    assert forall|x: int| 0 <= x < digits.len() implies is_digit(#[trigger] digits[x]) by {
        assert(digits[x] == s@[x + start]);
    }
    parse_digits(s, start, n)
}

/// What the placeholder text `ph` stands for.
fn placeholder_index_of(ph: &str) -> (r: Option<Option<usize>>)
    ensures
        match placeholder_index(ph@) {
            Some(Some(n)) => r == Some(Some(n as usize)),
            Some(None) => r == Some(None::<usize>),
            None => r is None,
        },
{
    let n = ph.unicode_len();
    if n == 1 && ph.get_char(0) == '?' {
        assert(ph@ =~= seq!['?']);
        return Some(None);
    }
    if n > 0 && ph.get_char(0) == '$' {
        proof {
            if ph@ == seq!['?'] {
                assert(ph@[0] == '?');
            }
        }
        let rest = ph.substring_char(1, n);
        assert(rest@ =~= ph@.drop_first());
        match parse_usize_text(rest) {
            Some(v) => Some(Some(v)),
            None => None,
        }
    } else {
        proof {
            if ph@ == seq!['?'] {
                assert(ph@.len() == 1 && ph@[0] == '?');
            }
        }
        Some(None)
    }
}

/// Adds what the placeholder `t` (if any) stands for.
fn note_placeholder(t: &Option<String>, count: &mut usize, positions: &mut Vec<usize>)
    requires
        *old(count) < 4,
    ensures
        ({
            let items = match opt_text(*t) {
                Some(ph) => match placeholder_index(ph) {
                    Some(x) => seq![x],
                    None => Seq::<Option<nat>>::empty(),
                },
                None => Seq::empty(),
            };
            &&& *final(count) == *old(count) + items.len()
            &&& nats(final(positions)@) == nats(old(positions)@) + numbered(items)
        }),
{
    let ghost before = nats(positions@);
    assert(numbered(Seq::<Option<nat>>::empty()) =~= Seq::<nat>::empty());
    if let Some(ph) = t {
        if let Some(index) = placeholder_index_of(ph.as_str()) {
            *count = *count + 1;
            if let Some(i) = index {
                positions.push(i);
                assert(nats(positions@) =~= before + seq![i as nat]);
                assert(numbered(seq![Some(i as nat)]) =~= seq![i as nat]) by {
                    assert(seq![Some(i as nat)].drop_last() =~= Seq::<Option<nat>>::empty());
                }
            } else {
                assert(numbered(seq![None::<nat>]) =~= Seq::<nat>::empty()) by {
                    assert(seq![None::<nat>].drop_last() =~= Seq::<Option<nat>>::empty());
                }
                assert(nats(positions@) =~= before + Seq::<nat>::empty());
            }
        } else {
            assert(nats(positions@) =~= before + Seq::<nat>::empty());
        }
    } else {
        assert(nats(positions@) =~= before + Seq::<nat>::empty());
    }
}

/// `numbered` of a concatenation.
proof fn lemma_numbered_concat(a: Seq<Option<nat>>, b: Seq<Option<nat>>)
    ensures
        numbered(a + b) == numbered(a) + numbered(b),
    decreases b.len(),
{
    if b.len() == 0 {
        assert(a + b =~= a);
        assert(numbered(a) + numbered(b) =~= numbered(a));
    } else {
        assert((a + b).drop_last() =~= a + b.drop_last());
        lemma_numbered_concat(a, b.drop_last());
        match b.last() {
            Some(n) => {
                assert(numbered(a) + numbered(b.drop_last()).push(n) =~= (numbered(a) + numbered(b.drop_last())).push(n));
            },
            None => {},
        }
    }
}

/// Drops from `bind_values` the values bound to the placeholders of the
/// `LIMIT` clause `shape` (see `trim_spec_binds`), and gives the numbers
/// of its numbered placeholders, largest first.
pub fn trim_limit_offset_placeholder_binds(shape: &Option<LimitShape>, bind_values: &mut Vec<FilterValue>) -> (r: Vec<usize>)
    ensures
        nats(r@) == sort_desc2(numbered(limit_placeholders(limit_view(*shape)))),
        final(bind_values)@ == trim_spec_binds(limit_view(*shape), old(bind_values)@),
{
    let mut count: usize = 0;
    let mut positions: Vec<usize> = Vec::new();
    assert(nats(positions@) =~= Seq::<nat>::empty());
    let ghost items = limit_placeholders(limit_view(*shape));
    match shape {
        None => {
            assert(items =~= Seq::<Option<nat>>::empty());
        },
        Some(LimitShape::LimitOffset(limit, offset)) => {
            let l: Option<String> = match limit {
                Some(t) => match t {
                    Some(ph) => Some(ph.clone()),
                    None => None,
                },
                None => None,
            };
            let o: Option<String> = match offset {
                Some(t) => match t {
                    Some(ph) => Some(ph.clone()),
                    None => None,
                },
                None => None,
            };
            note_placeholder(&l, &mut count, &mut positions);
            note_placeholder(&o, &mut count, &mut positions);
            proof {
                let one = |t: Option<Seq<char>>| match t {
                    Some(ph) => match placeholder_index(ph) {
                        Some(x) => seq![x],
                        None => Seq::<Option<nat>>::empty(),
                    },
                    None => Seq::<Option<nat>>::empty(),
                };
                lemma_numbered_concat(one(opt_text(l)), one(opt_text(o)));
            }
        },
        Some(LimitShape::OffsetCommaLimit(offset, limit)) => {
            let o: Option<String> = match offset {
                Some(ph) => Some(ph.clone()),
                None => None,
            };
            let l: Option<String> = match limit {
                Some(ph) => Some(ph.clone()),
                None => None,
            };
            note_placeholder(&o, &mut count, &mut positions);
            note_placeholder(&l, &mut count, &mut positions);
            proof {
                let one = |t: Option<Seq<char>>| match t {
                    Some(ph) => match placeholder_index(ph) {
                        Some(x) => seq![x],
                        None => Seq::<Option<nat>>::empty(),
                    },
                    None => Seq::<Option<nat>>::empty(),
                };
                lemma_numbered_concat(one(opt_text(o)), one(opt_text(l)));
            }
        },
    }
    assert(count == items.len());
    assert(nats(positions@) == numbered(items));
    if positions.len() == 2 && positions[0] < positions[1] {
        let first = positions[1];
        let second = positions[0];
        positions = vec![first, second];
        assert(nats(positions@) =~= seq![first as nat, second as nat]);
    }
    let ghost sorted = nats(positions@);
    if positions.len() > 0 {
        assert(sorted.subrange(0, sorted.len() as int) =~= sorted);
        let mut k: usize = 0;
        while k < positions.len()
            invariant
                k <= positions@.len(),
                sorted == nats(positions@),
                remove_numbered(old(bind_values)@, sorted) == remove_numbered(bind_values@, sorted.subrange(k as int, sorted.len() as int)),
            decreases positions@.len() - k,
        {
            let ghost rest = sorted.subrange(k as int, sorted.len() as int);
            assert(rest.drop_first() =~= sorted.subrange(k + 1, sorted.len() as int));
            let index = positions[k];
            let zero_based = if index >= 1 { index - 1 } else { 0 };
            if zero_based < bind_values.len() {
                bind_values.remove(zero_based);
            }
            k = k + 1;
        }
        proof {
            assert(sorted.subrange(positions@.len() as int, sorted.len() as int) =~= Seq::<nat>::empty());
        }
    } else {
        let ghost b0 = bind_values@;
        let mut k: usize = 0;
        while k < count
            invariant
                k <= count,
                bind_values@ == b0.subrange(0, if k <= b0.len() { b0.len() - k } else { 0 }),
            decreases count - k,
        {
            let _ = bind_values.pop();
            k = k + 1;
        }
    }
    positions
}

} // verus!
