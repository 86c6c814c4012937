//! Regular-expression scanning through `fancy_regex`, and the reassembly of
//! text from the matches found.
use vstd::prelude::*;

verus! {

/// What scanning `text` for all non-overlapping matches of `pattern` yields:
/// for each match, the text between the previous match and this one, and the
/// capture groups (group 0 is the whole match; `None` for a group that did not
/// take part); then the text after the last match. An error, with the
/// matcher's message, when the pattern does not compile or the matcher fails
/// at run time (its backtracking limit).
pub uninterp spec fn regex_scan(pattern: Seq<char>, text: Seq<char>) -> Result<
    (Seq<(Seq<char>, Seq<Option<Seq<char>>>)>, Seq<char>),
    Seq<char>,
>;

/// Group `i` of a match, or the empty text when it did not take part.
pub open spec fn group_or_empty(groups: Seq<Option<Seq<char>>>, i: int) -> Seq<char> {
    if 0 <= i < groups.len() && groups[i] is Some {
        groups[i]->0
    } else {
        Seq::empty()
    }
}

/// The text between matches, each followed by the replacement `f` computes
/// from the match's groups (the text after the last match is not included).
pub open spec fn assemble(
    segs: Seq<(Seq<char>, Seq<Option<Seq<char>>>)>,
    f: spec_fn(Seq<Option<Seq<char>>>) -> Seq<char>,
) -> Seq<char>
    decreases segs.len(),
{
    if segs.len() == 0 {
        Seq::empty()
    } else {
        assemble(segs.drop_last(), f) + segs.last().0 + f(segs.last().1)
    }
}

/// The whole match of a match's groups.
pub open spec fn whole_match(groups: Seq<Option<Seq<char>>>) -> Seq<char> {
    group_or_empty(groups, 0)
}

/// Scans `text` for every non-overlapping match of `pattern`, with
/// `fancy_regex::Regex::new` and `Regex::captures_iter`; errors carry the
/// matcher's message. The pieces put back together (text before each match,
/// the match, then the rest) give `text`.
#[verifier::external_body]
pub(crate) fn scan_all(pattern: &str, text: &str) -> (r: Result<(Vec<(String, Vec<Option<String>>)>, String), String>)
    ensures
        match r {
            Ok((segs, tail)) => {
                &&& regex_scan(pattern@, text@) == Ok::<_, Seq<char>>((segs.deep_view(), tail@))
                &&& text@ == assemble(segs.deep_view(), |g: Seq<Option<Seq<char>>>| whole_match(g)) + tail@
            },
            Err(msg) => regex_scan(pattern@, text@) == Err::<(Seq<(Seq<char>, Seq<Option<Seq<char>>>)>, Seq<char>), Seq<char>>(msg@),
        },
{
    let re = match fancy_regex::Regex::new(pattern) { Ok(re) => re, Err(e) => return Err(e.to_string()) };
    let (mut segs, mut last) = (Vec::new(), 0);
    for cap in re.captures_iter(text) {
        let cap = match cap { Ok(cap) => cap, Err(e) => return Err(e.to_string()) };
        let whole = cap.get(0).unwrap();
        segs.push((text[last..whole.start()].to_string(), cap.iter().map(|g| g.map(|m| m.as_str().to_string())).collect()));
        last = whole.end();
    }
    Ok((segs, text[last..].to_string()))
}

} // verus!
