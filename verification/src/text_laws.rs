//! Facts about splitting, joining, trimming and escaping text, used to show
//! that the text forms of this crate read back as they were written.
use vstd::prelude::*;
use crate::named_params::join;
use crate::text::{
    escape_char_spec, escape_spec, is_white_space_spec, last_index_of, lemma_last_index_of, split_spec,
    trim_spec, trim_start_spec, trim_end_by, leading_ws, unescape_pair,
};

verus! {

/// Whether none of `items` holds `c`.
pub open spec fn all_free_of(items: Seq<Seq<char>>, c: char) -> bool {
    forall|i: int| 0 <= i < items.len() ==> !(#[trigger] items[i]).contains(c)
}

/// Two texts without `c` give a text without `c`.
pub proof fn lemma_concat_free(a: Seq<char>, b: Seq<char>, c: char)
    requires
        !a.contains(c),
        !b.contains(c),
    ensures
        !(a + b).contains(c),
{
    if (a + b).contains(c) {
        let i = choose|i: int| 0 <= i < (a + b).len() && (a + b)[i] == c;
        if i < a.len() {
            assert(a[i] == c);
        } else {
            assert(b[i - a.len()] == c);
        }
    }
}

/// A text without `c` has no last `c`.
pub proof fn lemma_last_index_none(s: Seq<char>, c: char)
    requires
        !s.contains(c),
    ensures
        last_index_of(s, c) == -1,
{
    lemma_last_index_of(s, c);
    let k = last_index_of(s, c);
    if k >= 0 {
        assert(s[k] == c);
    }
}

/// The last `c` of `a + b` is the last `c` of `a` when `b` has none.
pub proof fn lemma_last_index_concat(a: Seq<char>, b: Seq<char>, c: char)
    requires
        !b.contains(c),
    ensures
        last_index_of(a + b, c) == last_index_of(a, c),
    decreases b.len(),
{
    if b.len() == 0 {
        assert(a + b =~= a);
    } else {
        assert((a + b).last() == b.last());
        if b.last() == c {
            assert(b[b.len() - 1] == c);
        }
        assert((a + b).drop_last() =~= a + b.drop_last());
        if b.drop_last().contains(c) {
            let i = choose|i: int| 0 <= i < b.drop_last().len() && b.drop_last()[i] == c;
            assert(b[i] == c);
        }
        lemma_last_index_concat(a, b.drop_last(), c);
    }
}

/// Splitting a text without `c` gives the text alone.
pub proof fn lemma_split_none(s: Seq<char>, c: char)
    requires
        !s.contains(c),
    ensures
        split_spec(s, c) == seq![s],
{
    lemma_last_index_none(s, c);
}

/// Splitting at `c` what was joined by `c` gives the items back, when none
/// of them holds `c`.
pub proof fn lemma_split_join(items: Seq<Seq<char>>, c: char)
    requires
        items.len() > 0,
        all_free_of(items, c),
    ensures
        split_spec(join(items, seq![c]), c) == items,
    decreases items.len(),
{
    if items.len() == 1 {
        lemma_split_none(items[0], c);
        assert(seq![items[0]] =~= items);
    } else {
        let front = items.drop_last();
        let last = items.last();
        let a = join(front, seq![c]);
        let s = a + seq![c] + last;
        assert(join(items, seq![c]) == s);
        assert(!last.contains(c));
        assert(a + seq![c] =~= a.push(c));
        lemma_last_index_concat(a.push(c), last, c);
        assert(a.push(c).last() == c);
        assert(last_index_of(s, c) == a.len());
        assert(s.subrange(0, a.len() as int) =~= a);
        assert(s.subrange(a.len() + 1int, s.len() as int) =~= last);
        assert(all_free_of(front, c)) by {
            assert forall|i: int| 0 <= i < front.len() implies !(#[trigger] front[i]).contains(c) by {
                assert(front[i] == items[i]);
            }
        }
        lemma_split_join(front, c);
        assert(front.push(last) =~= items);
    }
}

/// Joining texts without `c`, by a separator without `c`, gives a text
/// without `c`.
pub proof fn lemma_join_free(items: Seq<Seq<char>>, sep: Seq<char>, c: char)
    requires
        all_free_of(items, c),
        !sep.contains(c),
    ensures
        !join(items, sep).contains(c),
    decreases items.len(),
{
    if items.len() == 0 {
    } else if items.len() == 1 {
        assert(!items[0].contains(c));
    } else {
        let front = items.drop_last();
        assert(all_free_of(front, c)) by {
            assert forall|i: int| 0 <= i < front.len() implies !(#[trigger] front[i]).contains(c) by {
                assert(front[i] == items[i]);
            }
        }
        lemma_join_free(front, sep, c);
        assert(!items.last().contains(c));
        lemma_concat_free(join(front, sep), sep, c);
        lemma_concat_free(join(front, sep) + sep, items.last(), c);
    }
}

/// The last character of a joined list is that of its last item, when it
/// is not empty.
pub proof fn lemma_join_last(items: Seq<Seq<char>>, sep: Seq<char>)
    requires
        items.len() > 0,
        items.last().len() > 0,
    ensures
        join(items, sep).len() > 0,
        join(items, sep).last() == items.last().last(),
{
    if items.len() > 1 {
        let a = join(items.drop_last(), sep) + sep;
        assert(join(items, sep) == a + items.last());
        assert((a + items.last()).last() == items.last().last());
    }
}

/// A text that starts and ends with non-white-space characters is its own
/// trimmed form.
pub proof fn lemma_trim_clean(s: Seq<char>)
    requires
        s.len() > 0,
        !is_white_space_spec(s[0]),
        !is_white_space_spec(s.last()),
    ensures
        trim_spec(s) == s,
{
    assert(leading_ws(s) == 0);
    assert(s.subrange(0, s.len() as int) =~= s);
    assert(trim_start_spec(s) == s);
    assert(trim_end_by(s, true, ' ') == s);
}

/// Escaping distributes over concatenation.
pub proof fn lemma_escape_concat(a: Seq<char>, b: Seq<char>)
    ensures
        escape_spec(a + b) == escape_spec(a) + escape_spec(b),
    decreases b.len(),
{
    if b.len() == 0 {
        assert(a + b =~= a);
        assert(escape_spec(a) + escape_spec(b) =~= escape_spec(a));
    } else {
        assert((a + b).drop_last() =~= a + b.drop_last());
        assert((a + b).last() == b.last());
        lemma_escape_concat(a, b.drop_last());
        assert(escape_spec(a) + escape_spec(b.drop_last()) + escape_char_spec(b.last()) =~= escape_spec(a) + (
        escape_spec(b.drop_last()) + escape_char_spec(b.last())));
    }
}

/// Escaping a text reads off its first character first.
pub proof fn lemma_escape_front(s: Seq<char>)
    requires
        s.len() > 0,
    ensures
        escape_spec(s) == escape_char_spec(s[0]) + escape_spec(s.drop_first()),
{
    assert(seq![s[0]] + s.drop_first() =~= s);
    lemma_escape_concat(seq![s[0]], s.drop_first());
    let one = seq![s[0]];
    assert(one.drop_last() =~= Seq::<char>::empty());
    assert(one.last() == s[0]);
    assert(escape_spec(one.drop_last()) =~= Seq::<char>::empty());
    assert(escape_spec(one) == escape_spec(one.drop_last()) + escape_char_spec(s[0]));
    assert(Seq::<char>::empty() + escape_char_spec(s[0]) =~= escape_char_spec(s[0]));
}

/// An escaped text never starts with `"`.
pub proof fn lemma_escape_first(s: Seq<char>)
    requires
        escape_spec(s).len() > 0,
    ensures
        escape_spec(s)[0] != '"',
{
    if s.len() == 0 {
        assert(escape_spec(s).len() == 0);
    } else {
        lemma_escape_front(s);
    }
}

/// Escaping adds only `\`: a text without `c` (other than `\`) escapes to a
/// text without `c`.
pub proof fn lemma_escape_free(s: Seq<char>, c: char)
    requires
        !s.contains(c),
        c != '\\',
    ensures
        !escape_spec(s).contains(c),
    decreases s.len(),
{
    if s.len() > 0 {
        if s.drop_last().contains(c) {
            let i = choose|i: int| 0 <= i < s.drop_last().len() && s.drop_last()[i] == c;
            assert(s[i] == c);
        }
        lemma_escape_free(s.drop_last(), c);
        if s.last() == c {
            assert(s[s.len() - 1] == c);
        }
        assert(!escape_char_spec(s.last()).contains(c)) by {
            if escape_char_spec(s.last()).contains(c) {
                let i = choose|i: int| 0 <= i < escape_char_spec(s.last()).len() && escape_char_spec(s.last())[i] == c;
            }
        }
        lemma_concat_free(escape_spec(s.drop_last()), escape_char_spec(s.last()), c);
    }
}

/// Reading escapes of `q` in a text without `q` changes nothing.
pub proof fn lemma_unescape_none(s: Seq<char>, q: char)
    requires
        !s.contains(q),
    ensures
        unescape_pair(s, q) == s,
    decreases s.len(),
{
    if s.len() > 0 {
        if s.len() >= 2 {
            assert(s[1] != q);
        }
        if s.drop_first().contains(q) {
            let i = choose|i: int| 0 <= i < s.drop_first().len() && s.drop_first()[i] == q;
            assert(s[i + 1] == q);
        }
        lemma_unescape_none(s.drop_first(), q);
        assert(seq![s[0]] + s.drop_first() =~= s);
    }
}

/// Reading the escaped quotes of an escaped text without `;` gives the text.
proof fn lemma_unescape_escape_quotes(s: Seq<char>)
    requires
        !s.contains(';'),
    ensures
        unescape_pair(escape_spec(s), '"') == s,
    decreases s.len(),
{
    if s.len() == 0 {
        assert(escape_spec(s) =~= Seq::<char>::empty());
    } else {
        let x = s[0];
        let r = s.drop_first();
        lemma_escape_front(s);
        let e = escape_spec(s);
        if r.contains(';') {
            let i = choose|i: int| 0 <= i < r.len() && r[i] == ';';
            assert(s[i + 1] == ';');
        }
        lemma_unescape_escape_quotes(r);
        assert(x != ';');
        if x == '"' {
            assert(e =~= seq!['\\', '"'] + escape_spec(r));
            assert(e.subrange(2, e.len() as int) =~= escape_spec(r));
            assert(seq!['"'] + r =~= s);
        } else if x == '\\' {
            assert(e =~= seq!['\\'] + escape_spec(r));
            if escape_spec(r).len() > 0 {
                lemma_escape_first(r);
                assert(e[1] == escape_spec(r)[0]);
            }
            assert(e.drop_first() =~= escape_spec(r));
            assert(seq!['\\'] + r =~= s);
        } else {
            assert(e =~= seq![x] + escape_spec(r));
            assert(e.drop_first() =~= escape_spec(r));
            assert(seq![x] + r =~= s);
        }
    }
}

/// Unescaping what was escaped gives the text back, when it has no `;`.
pub proof fn lemma_unescape_escape(s: Seq<char>)
    requires
        !s.contains(';'),
    ensures
        unescape_pair(unescape_pair(escape_spec(s), '"'), ';') == s,
{
    lemma_unescape_escape_quotes(s);
    lemma_unescape_none(s, ';');
}

} // verus!
