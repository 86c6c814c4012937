//! Small verified string utilities used throughout the crate.
use vstd::prelude::*;

verus! {

/// `String::push` appends one character.
pub assume_specification[ std::string::String::push ](s: &mut std::string::String, ch: char)
    ensures
        final(s)@ == old(s)@.push(ch),
;

/// A fresh `String` holding exactly the characters of `s`.
pub fn string_of(s: &str) -> (r: String)
    ensures
        r@ == s@,
{
    String::from_str(s)
}

/// Character-wise equality of two string slices.
pub fn str_eq(a: &str, b: &str) -> (r: bool)
    ensures
        r == (a@ == b@),
{
    let n = a.unicode_len();
    if n != b.unicode_len() {
        return false;
    }
    let mut i: usize = 0;
    while i < n
        invariant
            n == a@.len(),
            n == b@.len(),
            i <= n,
            forall|j: int| 0 <= j < i ==> a@[j] == b@[j],
        decreases n - i,
    {
        if a.get_char(i) != b.get_char(i) {
            return false;
        }
        i = i + 1;
    }
    assert(a@ =~= b@);
    true
}

/// Appends the characters of `chars[from..to]` to `out`.
pub fn push_range(out: &mut String, chars: &Vec<char>, from: usize, to: usize)
    requires
        from <= to <= chars@.len(),
    ensures
        final(out)@ == old(out)@ + chars@.subrange(from as int, to as int),
{
    let mut i = from;
    while i < to
        invariant
            from <= i <= to,
            to <= chars@.len(),
            out@ == old(out)@ + chars@.subrange(from as int, i as int),
        decreases to - i,
    {
        out.push(chars[i]);
        assert(chars@.subrange(from as int, i + 1) =~= chars@.subrange(from as int, i as int).push(
            chars@[i as int],
        ));
        i = i + 1;
    }
}

/// The characters of `s` as a vector.
pub fn chars_of(s: &str) -> (r: Vec<char>)
    ensures
        r@ == s@,
{
    let n = s.unicode_len();
    let mut v: Vec<char> = Vec::new();
    let mut i: usize = 0;
    while i < n
        invariant
            n == s@.len(),
            i <= n,
            v@ == s@.subrange(0, i as int),
        decreases n - i,
    {
        v.push(s.get_char(i));
        assert(s@.subrange(0, i + 1) =~= s@.subrange(0, i as int).push(s@[i as int]));
        i = i + 1;
    }
    assert(s@.subrange(0, n as int) =~= s@);
    v
}

/// A `String` holding the given characters.
pub fn string_from_chars(chars: &Vec<char>) -> (r: String)
    ensures
        r@ == chars@,
{
    let mut out = String::new();
    push_range(&mut out, chars, 0, chars.len());
    assert(chars@.subrange(0, chars@.len() as int) =~= chars@);
    out
}

/// Whether `s` ends with `suffix`.
pub open spec fn ends_with_spec(s: Seq<char>, suffix: Seq<char>) -> bool {
    suffix.len() <= s.len() && s.subrange(s.len() - suffix.len(), s.len() as int) == suffix
}

/// Whether `s` starts with `prefix`.
pub open spec fn starts_with_spec(s: Seq<char>, prefix: Seq<char>) -> bool {
    prefix.len() <= s.len() && s.subrange(0, prefix.len() as int) == prefix
}

/// Whether `s` ends with `suffix`.
pub fn ends_with(s: &str, suffix: &str) -> (r: bool)
    ensures
        r == ends_with_spec(s@, suffix@),
{
    let n = s.unicode_len();
    let m = suffix.unicode_len();
    if m > n {
        return false;
    }
    str_eq(s.substring_char(n - m, n), suffix)
}

/// Whether `s` starts with `prefix`.
pub fn starts_with(s: &str, prefix: &str) -> (r: bool)
    ensures
        r == starts_with_spec(s@, prefix@),
{
    let n = s.unicode_len();
    let m = prefix.unicode_len();
    if m > n {
        return false;
    }
    str_eq(s.substring_char(0, m), prefix)
}

/// Whether `sub` occurs in `s` at some position.
pub open spec fn contains_seq(s: Seq<char>, sub: Seq<char>) -> bool {
    exists|i: int| 0 <= i && i + sub.len() <= s.len() && #[trigger] s.subrange(i, i + sub.len()) == sub
}

/// Whether `sub` occurs in `s`.
pub fn contains_str(s: &str, sub: &str) -> (r: bool)
    ensures
        r == contains_seq(s@, sub@),
{
    let n = s.unicode_len();
    let m = sub.unicode_len();
    if m > n {
        proof {
            assert forall|i: int| 0 <= i && i + sub@.len() <= s@.len() implies #[trigger] s@.subrange(i, i + sub@.len()) != sub@ by {}
        }
        return false;
    }
    if m == 0 {
        assert(s@.subrange(0int, 0int + sub@.len()) =~= sub@);
        return true;
    }
    let mut i: usize = 0;
    let last = n - m;
    while i <= last
        invariant
            n == s@.len(),
            m == sub@.len(),
            0 < m <= n,
            last == n - m,
            i <= last + 1,
            forall|j: int| 0 <= j < i ==> #[trigger] s@.subrange(j, j + m) != sub@,
        decreases last + 1 - i,
    {
        if str_eq(s.substring_char(i, i + m), sub) {
            return true;
        }
        i = i + 1;
    }
    proof {
        assert forall|j: int| 0 <= j && j + sub@.len() <= s@.len() implies #[trigger] s@.subrange(j, j + sub@.len()) != sub@ by {
            assert(j < i);
        }
    }
    false
}

/// Whether `c` occurs in `s`.
pub open spec fn seq_has(s: Seq<char>, c: char) -> bool {
    exists|i: int| 0 <= i < s.len() && s[i] == c
}

/// Index of the first occurrence of `c` in `s`, if any.
pub fn find_char(s: &str, c: char) -> (r: Option<usize>)
    ensures
        match r {
            Some(i) => i < s@.len() && s@[i as int] == c && forall|j: int|
                0 <= j < i ==> s@[j] != c,
            None => forall|j: int| 0 <= j < s@.len() ==> s@[j] != c,
        },
{
    let n = s.unicode_len();
    let mut i: usize = 0;
    while i < n
        invariant
            n == s@.len(),
            i <= n,
            forall|j: int| 0 <= j < i ==> s@[j] != c,
        decreases n - i,
    {
        if s.get_char(i) == c {
            return Some(i);
        }
        i = i + 1;
    }
    None
}

/// Whether `s` contains the character `c`.
pub fn contains_char(s: &str, c: char) -> (r: bool)
    ensures
        r == seq_has(s@, c),
{
    match find_char(s, c) {
        Some(i) => true,
        None => false,
    }
}

} // verus!

verus! {

/// Unicode `White_Space` (what `char::is_whitespace` tests).
pub open spec fn is_white_space_spec(c: char) -> bool {
    ('\u{9}' <= c <= '\u{d}') || c == ' ' || c == '\u{85}' || c == '\u{a0}' || c == '\u{1680}'
        || ('\u{2000}' <= c <= '\u{200a}') || c == '\u{2028}' || c == '\u{2029}' || c == '\u{202f}'
        || c == '\u{205f}' || c == '\u{3000}'
}

/// Whether `c` is Unicode white space.
pub fn is_white_space(c: char) -> (r: bool)
    ensures
        r == is_white_space_spec(c),
{
    ('\u{9}' <= c && c <= '\u{d}') || c == ' ' || c == '\u{85}' || c == '\u{a0}' || c == '\u{1680}'
        || ('\u{2000}' <= c && c <= '\u{200a}') || c == '\u{2028}' || c == '\u{2029}' || c == '\u{202f}'
        || c == '\u{205f}' || c == '\u{3000}'
}

/// Number of leading white-space characters of `s`.
pub open spec fn leading_ws(s: Seq<char>) -> nat
    decreases s.len(),
{
    if s.len() > 0 && is_white_space_spec(s[0]) {
        1 + leading_ws(s.drop_first())
    } else {
        0
    }
}

/// Whether trimming strips `c`: white space when `ws`, else exactly `ch`.
pub open spec fn strips_spec(c: char, ws: bool, ch: char) -> bool {
    if ws { is_white_space_spec(c) } else { c == ch }
}

/// `s` without the trailing characters that `strips_spec(_, ws, ch)` accepts.
pub open spec fn trim_end_by(s: Seq<char>, ws: bool, ch: char) -> Seq<char>
    decreases s.len(),
{
    if s.len() > 0 && strips_spec(s.last(), ws, ch) {
        trim_end_by(s.drop_last(), ws, ch)
    } else {
        s
    }
}

/// `s` without leading white space.
pub open spec fn trim_start_spec(s: Seq<char>) -> Seq<char> {
    s.subrange(leading_ws(s) as int, s.len() as int)
}

/// `s` without leading or trailing white space (what `str::trim` returns).
pub open spec fn trim_spec(s: Seq<char>) -> Seq<char> {
    trim_end_by(trim_start_spec(s), true, ' ')
}

proof fn lemma_leading_ws_bound(s: Seq<char>)
    ensures
        leading_ws(s) <= s.len(),
    decreases s.len(),
{
    if s.len() > 0 && is_white_space_spec(s[0]) {
        lemma_leading_ws_bound(s.drop_first());
    }
}

/// Index after the leading white space of `s[from..to]`.
fn skip_ws_forward(s: &str, from: usize, to: usize) -> (r: usize)
    requires
        from <= to <= s@.len(),
    ensures
        from <= r <= to,
        r == from + leading_ws(s@.subrange(from as int, to as int)),
{
    let mut i = from;
    while i < to && is_white_space(s.get_char(i))
        invariant
            from <= i <= to <= s@.len(),
            leading_ws(s@.subrange(from as int, to as int)) == (i - from) + leading_ws(s@.subrange(i as int, to as int)),
        decreases to - i,
    {
        assert(s@.subrange(i as int, to as int).drop_first() =~= s@.subrange(i + 1, to as int));
        i = i + 1;
    }
    proof {
        if i < to {
            assert(s@.subrange(i as int, to as int)[0] == s@[i as int]);
        }
    }
    i
}

fn strips(c: char, strip_ws: bool, ch: char) -> (r: bool)
    ensures
        r == strips_spec(c, strip_ws, ch),
{
    if strip_ws { is_white_space(c) } else { c == ch }
}

/// Index before the trailing characters of `s[from..to]` satisfying `p`.
fn skip_back_by(s: &str, from: usize, to: usize, strip_ws: bool, ch: char) -> (r: usize)
    requires
        from <= to <= s@.len(),
    ensures
        from <= r <= to,
        s@.subrange(from as int, r as int) == trim_end_by(s@.subrange(from as int, to as int), strip_ws, ch),
{
    let mut j = to;
    while j > from && strips(s.get_char(j - 1), strip_ws, ch)
        invariant
            from <= j <= to <= s@.len(),
            trim_end_by(s@.subrange(from as int, to as int), strip_ws, ch) == trim_end_by(s@.subrange(from as int, j as int), strip_ws, ch),
        decreases j,
    {
        assert(s@.subrange(from as int, j as int).drop_last() =~= s@.subrange(from as int, j - 1));
        j = j - 1;
    }
    j
}

/// `s[from..to]` without leading and trailing white space, as a slice of `s`.
pub fn trim_range(s: &str, from: usize, to: usize) -> (r: &str)
    requires
        from <= to <= s@.len(),
    ensures
        r@ == trim_spec(s@.subrange(from as int, to as int)),
{
    let a = skip_ws_forward(s, from, to);
    proof {
        lemma_leading_ws_bound(s@.subrange(from as int, to as int));
        assert(s@.subrange(from as int, to as int).subrange(leading_ws(s@.subrange(from as int, to as int)) as int, (to - from) as int)
            =~= s@.subrange(a as int, to as int));
    }
    let b = skip_back_by(s, a, to, true, ' ');
    s.substring_char(a, b)
}

/// `s[from..to]` without trailing `ch` characters, as a slice of `s`.
pub fn trim_end_char_range(s: &str, from: usize, to: usize, ch: char) -> (r: &str)
    requires
        from <= to <= s@.len(),
    ensures
        r@ == trim_end_by(s@.subrange(from as int, to as int), false, ch),
{
    let b = skip_back_by(s, from, to, false, ch);
    s.substring_char(from, b)
}

/// Decimal digits of `n` (no leading zeros; "0" for zero).
pub open spec fn decimal(n: nat) -> Seq<char>
    decreases n,
{
    if n < 10 {
        seq![digit_char(n)]
    } else {
        decimal(n / 10).push(digit_char(n % 10))
    }
}

/// The character of one decimal digit.
pub open spec fn digit_char(d: nat) -> char {
    if d == 0 { '0' } else if d == 1 { '1' } else if d == 2 { '2' } else if d == 3 { '3' }
    else if d == 4 { '4' } else if d == 5 { '5' } else if d == 6 { '6' } else if d == 7 { '7' }
    else if d == 8 { '8' } else { '9' }
}

fn digit(d: usize) -> (r: char)
    requires
        d < 10,
    ensures
        r == digit_char(d as nat),
{
    if d == 0 { '0' } else if d == 1 { '1' } else if d == 2 { '2' } else if d == 3 { '3' }
    else if d == 4 { '4' } else if d == 5 { '5' } else if d == 6 { '6' } else if d == 7 { '7' }
    else if d == 8 { '8' } else { '9' }
}

/// Appends the decimal digits of `n` to `out`.
pub fn push_decimal(out: &mut String, n: usize)
    ensures
        final(out)@ == old(out)@ + decimal(n as nat),
    decreases n,
{
    if n < 10 {
        out.push(digit(n));
        assert(old(out)@ + decimal(n as nat) =~= old(out)@.push(digit_char(n as nat)));
    } else {
        push_decimal(out, n / 10);
        out.push(digit(n % 10));
        assert(old(out)@ + decimal(n as nat) =~= (old(out)@ + decimal((n / 10) as nat)).push(digit_char((n % 10) as nat)));
    }
}

/// Appends the decimal digits of `n` to `out`.
pub fn push_decimal_u64(out: &mut String, n: u64)
    ensures
        final(out)@ == old(out)@ + decimal(n as nat),
    decreases n,
{
    if n < 10 {
        out.push(digit(n as usize));
        assert(old(out)@ + decimal(n as nat) =~= old(out)@.push(digit_char(n as nat)));
    } else {
        push_decimal_u64(out, n / 10);
        out.push(digit((n % 10) as usize));
        assert(old(out)@ + decimal(n as nat) =~= (old(out)@ + decimal((n / 10) as nat)).push(digit_char((n % 10) as nat)));
    }
}

/// The ASCII lowercase of `c` (other characters unchanged).
pub open spec fn ascii_lower(c: char) -> char {
    if 'A' <= c <= 'Z' { ((c as u32) + 32) as char } else { c }
}

/// Whether `s`, with ASCII letters lowercased, is `word`.
pub open spec fn eq_ignore_ascii_case_spec(s: Seq<char>, word: Seq<char>) -> bool {
    s.len() == word.len() && forall|i: int| 0 <= i < s.len() ==> ascii_lower(s[i]) == ascii_lower(word[i])
}

/// The ASCII lowercase of `c`.
pub fn to_ascii_lower(c: char) -> (r: char)
    ensures
        r == ascii_lower(c),
{
    if 'A' <= c && c <= 'Z' {
        let v: u32 = (c as u32) + 32;
        let b: u8 = v as u8;
        assert(b as u32 == v);
        b as char
    } else {
        c
    }
}

/// Whether `s` and `word` are equal up to the case of ASCII letters.
pub fn eq_ignore_ascii_case(s: &str, word: &str) -> (r: bool)
    ensures
        r == eq_ignore_ascii_case_spec(s@, word@),
{
    let n = s.unicode_len();
    if n != word.unicode_len() {
        return false;
    }
    let mut i: usize = 0;
    while i < n
        invariant
            n == s@.len(),
            n == word@.len(),
            i <= n,
            forall|j: int| 0 <= j < i ==> ascii_lower(s@[j]) == ascii_lower(word@[j]),
        decreases n - i,
    {
        if to_ascii_lower(s.get_char(i)) != to_ascii_lower(word.get_char(i)) {
            return false;
        }
        i = i + 1;
    }
    true
}

/// Index of the last `c` in `s`, or -1.
pub open spec fn last_index_of(s: Seq<char>, c: char) -> int
    decreases s.len(),
{
    if s.len() == 0 {
        -1
    } else if s.last() == c {
        s.len() - 1
    } else {
        last_index_of(s.drop_last(), c)
    }
}

/// `last_index_of` is -1 or an index of `c`.
pub proof fn lemma_last_index_of(s: Seq<char>, c: char)
    ensures
        -1 <= last_index_of(s, c) < s.len(),
        last_index_of(s, c) >= 0 ==> s[last_index_of(s, c)] == c,
        forall|j: int| last_index_of(s, c) < j < s.len() ==> s[j] != c,
    decreases s.len(),
{
    if s.len() > 0 && s.last() != c {
        lemma_last_index_of(s.drop_last(), c);
        assert forall|j: int| last_index_of(s, c) < j < s.len() implies s[j] != c by {
            if j < s.len() - 1 {
                assert(s.drop_last()[j] == s[j]);
            }
        }
    }
}

/// `s` split at every `c` (`"a;b;"` gives `"a"`, `"b"`, `""`).
pub open spec fn split_spec(s: Seq<char>, c: char) -> Seq<Seq<char>>
    decreases s.len(),
{
    let k = last_index_of(s, c);
    if 0 <= k < s.len() {
        split_spec(s.subrange(0, k), c).push(s.subrange(k + 1, s.len() as int))
    } else {
        seq![s]
    }
}

/// Splitting one character longer.
pub proof fn lemma_split_push(p: Seq<char>, x: char, c: char)
    ensures
        split_spec(p.push(x), c) == (if x == c {
            split_spec(p, c).push(Seq::empty())
        } else {
            let sp = split_spec(p, c);
            sp.update(sp.len() - 1, sp.last().push(x))
        }),
        split_spec(p, c).len() >= 1,
{
    lemma_last_index_of(p, c);
    let q = p.push(x);
    let k = last_index_of(p, c);
    if x == c {
        assert(q.subrange(0, p.len() as int) =~= p);
        assert(q.subrange(p.len() + 1int, q.len() as int) =~= Seq::<char>::empty());
    } else {
        assert(q.drop_last() =~= p);
        assert(last_index_of(q, c) == k);
        if k >= 0 {
            assert(q.subrange(0, k) =~= p.subrange(0, k));
            assert(q.subrange(k + 1, q.len() as int) =~= p.subrange(k + 1, p.len() as int).push(x));
        }
    }
}

/// Pieces of `s` split at every `c`.
pub fn split_char(s: &str, c: char) -> (r: Vec<String>)
    ensures
        r.deep_view() == split_spec(s@, c),
{
    let n = s.unicode_len();
    let mut pieces: Vec<String> = Vec::new();
    let mut current = String::new();
    let mut i: usize = 0;
    proof {
        assert(s@.subrange(0, 0) =~= Seq::<char>::empty());
        lemma_last_index_of(Seq::<char>::empty(), c);
    }
    while i < n
        invariant
            n == s@.len(),
            i <= n,
            pieces.deep_view().push(current@) == split_spec(s@.subrange(0, i as int), c),
        decreases n - i,
    {
        let x = s.get_char(i);
        proof {
            lemma_split_push(s@.subrange(0, i as int), x, c);
            assert(s@.subrange(0, i + 1) =~= s@.subrange(0, i as int).push(x));
        }
        let ghost before = pieces.deep_view().push(current@);
        if x == c {
            let done = current;
            pieces.push(done);
            current = String::new();
            assert(pieces.deep_view().push(current@) =~= before.push(Seq::empty()));
        } else {
            current.push(x);
            assert(pieces.deep_view().push(current@) =~= before.update(before.len() - 1, before.last().push(x)));
        }
        i = i + 1;
    }
    pieces.push(current);
    assert(s@.subrange(0, n as int) =~= s@);
    pieces
}

/// Index of the last `c` in `s`, if any.
pub fn find_last_char(s: &str, c: char) -> (r: Option<usize>)
    ensures
        match r {
            Some(k) => k as int == last_index_of(s@, c),
            None => last_index_of(s@, c) == -1,
        },
{
    let mut i: usize = s.unicode_len();
    assert(s@.subrange(0, i as int) =~= s@);
    while i > 0
        invariant
            i <= s@.len(),
            last_index_of(s@, c) == last_index_of(s@.subrange(0, i as int), c),
        decreases i,
    {
        let ghost sub = s@.subrange(0, i as int);
        assert(sub.drop_last() =~= s@.subrange(0, i - 1));
        if s.get_char(i - 1) == c {
            return Some(i - 1);
        }
        i = i - 1;
    }
    None
}

/// `s` with `\"` read as `"` and then `\;` read as `;` (left to right,
/// without overlap).
pub open spec fn unescape_pair(s: Seq<char>, q: char) -> Seq<char>
    decreases s.len(),
{
    if s.len() == 0 {
        s
    } else if s.len() >= 2 && s[0] == '\\' && s[1] == q {
        seq![q] + unescape_pair(s.subrange(2, s.len() as int), q)
    } else {
        seq![s[0]] + unescape_pair(s.drop_first(), q)
    }
}

/// `s` with each `\` followed by `q` replaced by `q`.
pub fn unescape_char(s: &str, q: char) -> (r: String)
    ensures
        r@ == unescape_pair(s@, q),
{
    let n = s.unicode_len();
    let mut out = String::new();
    let mut i: usize = 0;
    assert(s@.subrange(0, n as int) =~= s@);
    while i < n
        invariant
            n == s@.len(),
            i <= n,
            unescape_pair(s@, q) == out@ + unescape_pair(s@.subrange(i as int, n as int), q),
        decreases n - i,
    {
        let rest = Ghost(s@.subrange(i as int, n as int));
        if i + 1 < n && s.get_char(i) == '\\' && s.get_char(i + 1) == q {
            out.push(q);
            assert(rest@.subrange(2, rest@.len() as int) =~= s@.subrange(i + 2, n as int));
            i = i + 2;
        } else {
            out.push(s.get_char(i));
            assert(rest@.drop_first() =~= s@.subrange(i + 1, n as int));
            i = i + 1;
        }
    }
    assert(s@.subrange(n as int, n as int) =~= Seq::<char>::empty());
    assert(out@ + Seq::<char>::empty() =~= out@);
    out
}

/// What escaping one character gives: `"` and `;` get a `\` before them.
pub open spec fn escape_char_spec(c: char) -> Seq<char> {
    if c == '"' || c == ';' { seq!['\\', c] } else { seq![c] }
}

/// `s` with `"` and `;` escaped by `\`.
pub open spec fn escape_spec(s: Seq<char>) -> Seq<char>
    decreases s.len(),
{
    if s.len() == 0 {
        Seq::empty()
    } else {
        escape_spec(s.drop_last()) + escape_char_spec(s.last())
    }
}

/// `s` with `"` and `;` escaped by `\`.
pub fn escape_quotes_semicolons(s: &str) -> (r: String)
    ensures
        r@ == escape_spec(s@),
{
    let n = s.unicode_len();
    let mut out = String::new();
    let mut i: usize = 0;
    while i < n
        invariant
            n == s@.len(),
            i <= n,
            out@ == escape_spec(s@.subrange(0, i as int)),
        decreases n - i,
    {
        let c = s.get_char(i);
        let ghost before = out@;
        if c == '"' || c == ';' {
            out.push('\\');
        }
        out.push(c);
        proof {
            assert(s@.subrange(0, i + 1).drop_last() =~= s@.subrange(0, i as int));
            assert(out@ =~= before + escape_char_spec(c));
        }
        i = i + 1;
    }
    assert(s@.subrange(0, n as int) =~= s@);
    out
}

} // verus!
