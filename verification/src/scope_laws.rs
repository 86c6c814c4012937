//! What holds of scope managers across their operations: a scope added is
//! the one found under its name, ignored scopes are never active, and the
//! text form that carries scopes from a repository to its methods reads
//! back as the manager it was written from.
use vstd::prelude::*;
use crate::named_params::join;
use crate::scope::{
    ScopeEntry, ScopeManagerView, ScopeTarget, add_scope_spec, has_target, active_spec, active_for_spec, deserialize_spec,
    all_targets, empty_manager, grouped_targets, has_group, entry_text, name_index, read_entries, read_entry, read_ignored, read_part, read_parts,
    serialize_spec, target_from_spec, target_text,
};
use crate::syntax::{first_match, lemma_first_match, lemma_first_match_found};
use crate::text::{ascii_lower, eq_ignore_ascii_case_spec, escape_spec, is_white_space_spec, last_index_of, split_spec, trim_spec};
use crate::text_laws::{
    all_free_of, lemma_concat_free, lemma_escape_free, lemma_join_free, lemma_join_last, lemma_last_index_concat,
    lemma_split_join, lemma_trim_clean, lemma_unescape_escape,
};

verus! {

/// The SQL and target of the scope named `n`, if there is one.
pub open spec fn lookup(scopes: Seq<ScopeEntry>, n: Seq<char>) -> Option<(Seq<char>, ScopeTarget)> {
    let k = name_index(scopes, n);
    if k < scopes.len() {
        Some((scopes[k as int].1, scopes[k as int].2))
    } else {
        None
    }
}

/// Whether no two scopes share a name.
pub open spec fn names_distinct(scopes: Seq<ScopeEntry>) -> bool {
    forall|i: int, j: int|
        0 <= i < scopes.len() && 0 <= j < scopes.len() && i != j ==> (#[trigger] scopes[i]).0 != (#[trigger] scopes[j]).0
}

/// `name_index` is the length when no scope has the name, else the index of
/// the first one that has it.
proof fn lemma_name_index(scopes: Seq<ScopeEntry>, n: Seq<char>)
    ensures
        name_index(scopes, n) <= scopes.len(),
        name_index(scopes, n) < scopes.len() ==> scopes[name_index(scopes, n) as int].0 == n,
        forall|j: int| 0 <= j < name_index(scopes, n) ==> (#[trigger] scopes[j]).0 != n,
    decreases scopes.len(),
{
    if scopes.len() > 0 && scopes[0].0 != n {
        let r = scopes.drop_first();
        lemma_name_index(r, n);
        assert(name_index(scopes, n) == 1 + name_index(r, n));
        assert forall|j: int| 0 <= j < name_index(scopes, n) implies (#[trigger] scopes[j]).0 != n by {
            if j > 0 {
                assert(r[j - 1] == scopes[j]);
            }
        }
        if name_index(scopes, n) < scopes.len() {
            assert(r[name_index(r, n) as int] == scopes[name_index(scopes, n) as int]);
        }
    }
}

/// The index given by the facts that characterise it.
proof fn lemma_name_index_at(scopes: Seq<ScopeEntry>, n: Seq<char>, k: int)
    requires
        0 <= k <= scopes.len(),
        forall|j: int| 0 <= j < k ==> (#[trigger] scopes[j]).0 != n,
        k < scopes.len() ==> scopes[k].0 == n,
    ensures
        name_index(scopes, n) == k,
{
    lemma_name_index(scopes, n);
    let f = name_index(scopes, n);
    if f < k {
        assert(scopes[f as int].0 == n);
    } else if f > k {
        assert(scopes[k].0 != n);
    }
}

/// Adding a scope, then looking up its name, gives what was added; every
/// other name is looked up as before; names stay distinct.
pub proof fn lemma_add_scope_lookup(v: ScopeManagerView, n: Seq<char>, sql: Seq<char>, t: ScopeTarget, m: Seq<char>)
    ensures
        lookup(add_scope_spec(v, n, sql, t).scopes, n) == Some((sql, t)),
        m != n ==> lookup(add_scope_spec(v, n, sql, t).scopes, m) == lookup(v.scopes, m),
        add_scope_spec(v, n, sql, t).ignored == v.ignored,
        names_distinct(v.scopes) ==> names_distinct(add_scope_spec(v, n, sql, t).scopes),
{
    let s = v.scopes;
    let w = add_scope_spec(v, n, sql, t).scopes;
    let k = name_index(s, n);
    lemma_name_index(s, n);
    lemma_name_index(s, m);
    let km = name_index(s, m);
    if k < s.len() {
        assert(w == s.update(k as int, (n, sql, t)));
        lemma_name_index_at(w, n, k as int);
        if m != n {
            if km < k {
                lemma_name_index_at(w, m, km as int);
            } else {
                assert(forall|j: int| 0 <= j < k ==> (#[trigger] w[j]).0 != m);
                assert(km > k);
                lemma_name_index_at(w, m, km as int);
            }
        }
        if names_distinct(s) {
            assert forall|i: int, j: int|
                0 <= i < w.len() && 0 <= j < w.len() && i != j implies (#[trigger] w[i]).0 != (#[trigger] w[j]).0 by {
                if i != k && j != k {
                    assert(w[i] == s[i] && w[j] == s[j]);
                } else if i == k {
                    assert(s[j].0 != s[k as int].0);
                } else {
                    assert(s[i].0 != s[k as int].0);
                }
            }
        }
    } else {
        assert(w == s.push((n, sql, t)));
        lemma_name_index_at(w, n, s.len() as int);
        if m != n {
            if km < s.len() {
                lemma_name_index_at(w, m, km as int);
            } else {
                lemma_name_index_at(w, m, w.len() as int);
            }
        }
        if names_distinct(s) {
            assert forall|i: int, j: int|
                0 <= i < w.len() && 0 <= j < w.len() && i != j implies (#[trigger] w[i]).0 != (#[trigger] w[j]).0 by {
                if i < s.len() && j < s.len() {
                    assert(w[i] == s[i] && w[j] == s[j]);
                } else if i == s.len() {
                    assert(s[j].0 != n);
                } else {
                    assert(s[i].0 != n);
                }
            }
        }
    }
}

/// The active scopes are exactly the scopes whose names are not ignored.
pub proof fn lemma_active_scopes(v: ScopeManagerView, t: ScopeTarget)
    ensures
        forall|i: int| 0 <= i < active_spec(v).len() ==> !v.ignored.contains((#[trigger] active_spec(v)[i]).0),
        forall|i: int| 0 <= i < active_spec(v).len() ==> v.scopes.contains(#[trigger] active_spec(v)[i]),
        forall|i: int| 0 <= i < v.scopes.len() && !v.ignored.contains(v.scopes[i].0) ==> active_spec(v).contains(
            #[trigger] v.scopes[i],
        ),
        forall|i: int|
            0 <= i < active_for_spec(v, t).len() ==> (#[trigger] active_for_spec(v, t)[i]).2 == t && active_spec(
                v,
            ).contains(active_for_spec(v, t)[i]),
{
    let p = |e: ScopeEntry| !v.ignored.contains(e.0);
    assert forall|i: int| 0 <= i < active_spec(v).len() implies !v.ignored.contains(
        (#[trigger] active_spec(v)[i]).0,
    ) by {
        v.scopes.lemma_filter_pred(p, i);
    }
    assert forall|i: int| 0 <= i < active_spec(v).len() implies v.scopes.contains(#[trigger] active_spec(v)[i]) by {
        assert(active_spec(v).contains(active_spec(v)[i]));
        v.scopes.lemma_filter_contains_rev(p, active_spec(v)[i]);
    }
    assert forall|i: int| 0 <= i < v.scopes.len() && !v.ignored.contains(v.scopes[i].0) implies active_spec(
        v,
    ).contains(#[trigger] v.scopes[i]) by {
        v.scopes.lemma_filter_contains(p, i);
    }
    let a = active_spec(v);
    let q = has_target(t);
    assert forall|i: int| 0 <= i < active_for_spec(v, t).len() implies (#[trigger] active_for_spec(v, t)[i]).2 == t
        && active_spec(v).contains(active_for_spec(v, t)[i]) by {
        a.lemma_filter_pred(q, i);
        assert(a.filter(q).contains(a.filter(q)[i]));
        a.lemma_filter_contains_rev(q, a.filter(q)[i]);
    }
}

/// A scope that the text form carries unchanged: its name trimmed and
/// without `=`, `;` or `|`; its SQL without `;` or `|`.
pub open spec fn carried_scope(e: ScopeEntry) -> bool {
    &&& trim_spec(e.0) == e.0
    &&& !e.0.contains('=')
    &&& !e.0.contains(';')
    &&& !e.0.contains('|')
    &&& !e.1.contains(';')
    &&& !e.1.contains('|')
}

/// An ignored name that the text form carries unchanged: not empty, neither
/// starting nor ending with white space, without `,` or `|`.
pub open spec fn carried_ignored(n: Seq<char>) -> bool {
    &&& n.len() > 0
    &&& !is_white_space_spec(n[0])
    &&& !is_white_space_spec(n.last())
    &&& !n.contains(',')
    &&& !n.contains('|')
}

/// A manager that the text form carries unchanged.
pub open spec fn carried(v: ScopeManagerView) -> bool {
    &&& names_distinct(v.scopes)
    &&& forall|i: int| 0 <= i < v.scopes.len() ==> carried_scope(#[trigger] v.scopes[i])
    &&& forall|i: int| 0 <= i < v.ignored.len() ==> carried_ignored(#[trigger] v.ignored[i])
}

/// Each target is read back from the name it is written with.
proof fn lemma_target_round_trip(t: ScopeTarget)
    ensures
        target_from_spec(target_text(t)) == Some(t),
        !target_text(t).contains(':'),
        !target_text(t).contains(';'),
        !target_text(t).contains('|'),
        target_text(t).len() > 0,
        !is_white_space_spec(target_text(t).last()),
{
    reveal_strlit("select");
    reveal_strlit("from");
    reveal_strlit("join");
    reveal_strlit("where");
    reveal_strlit("group_by");
    reveal_strlit("groupby");
    reveal_strlit("having");
    reveal_strlit("order_by");
    reveal_strlit("orderby");
    let s = target_text(t);
    match t {
        ScopeTarget::Join => {
            assert(ascii_lower("join"@[0]) != ascii_lower("from"@[0]));
        },
        ScopeTarget::Having => {
            assert(ascii_lower("having"@[0]) != ascii_lower("select"@[0]));
        },
        ScopeTarget::OrderBy => {
            assert(ascii_lower("order_by"@[0]) != ascii_lower("group_by"@[0]));
        },
        _ => {},
    }
    assert(eq_ignore_ascii_case_spec(s, s));
    assert forall|c: char| (c == ':' || c == ';' || c == '|') implies !s.contains(c) by {
        if s.contains(c) {
            let i = choose|i: int| 0 <= i < s.len() && s[i] == c;
        }
    }
}

/// The text of a carried scope holds no `;` and no `|`.
proof fn lemma_entry_text_free(e: ScopeEntry)
    requires
        carried_scope(e),
    ensures
        !entry_text(e).contains(';'),
        !entry_text(e).contains('|'),
{
    reveal_strlit("=");
    reveal_strlit(":");
    lemma_target_round_trip(e.2);
    lemma_escape_free(e.1, ';');
    lemma_escape_free(e.1, '|');
    assert(!"="@.contains(';') && !"="@.contains('|') && !":"@.contains(';') && !":"@.contains('|')) by {
        assert("="@ =~= seq!['=']);
        assert(":"@ =~= seq![':']);
    }
    lemma_concat_free(e.0, "="@, ';');
    lemma_concat_free(e.0 + "="@, escape_spec(e.1), ';');
    lemma_concat_free(e.0 + "="@ + escape_spec(e.1), ":"@, ';');
    lemma_concat_free(e.0 + "="@ + escape_spec(e.1) + ":"@, target_text(e.2), ';');
    lemma_concat_free(e.0, "="@, '|');
    lemma_concat_free(e.0 + "="@, escape_spec(e.1), '|');
    lemma_concat_free(e.0 + "="@ + escape_spec(e.1), ":"@, '|');
    lemma_concat_free(e.0 + "="@ + escape_spec(e.1) + ":"@, target_text(e.2), '|');
}

/// Reading the text of a carried scope whose name is new adds it last.
proof fn lemma_read_entry_text(w: ScopeManagerView, e: ScopeEntry)
    requires
        carried_scope(e),
        forall|j: int| 0 <= j < w.scopes.len() ==> (#[trigger] w.scopes[j]).0 != e.0,
    ensures
        read_entry(w, entry_text(e)) == Ok::<ScopeManagerView, Seq<char>>(
            ScopeManagerView { scopes: w.scopes.push(e), ignored: w.ignored },
        ),
{
    reveal_strlit("=");
    reveal_strlit(":");
    lemma_target_round_trip(e.2);
    let entry = entry_text(e);
    let name = e.0;
    let esc = escape_spec(e.1);
    let tt = target_text(e.2);
    assert(entry =~= name + seq!['='] + esc + seq![':'] + tt);
    assert forall|j: int| 0 <= j < name.len() implies !((|c: char| c == '=')(#[trigger] entry[j])) by {
        assert(entry[j] == name[j]);
    }
    assert(entry[name.len() as int] == '=');
    lemma_first_match(entry, |c: char| c == '=', name.len() as int);
    let eq = first_match(entry, |c: char| c == '=');
    assert(eq == name.len());
    assert(entry.subrange(0, eq as int) =~= name);
    let rest = entry.subrange(eq + 1int, entry.len() as int);
    assert(rest =~= esc.push(':') + tt);
    lemma_last_index_concat(esc.push(':'), tt, ':');
    assert(esc.push(':').last() == ':');
    assert(last_index_of(rest, ':') == esc.len());
    assert(rest.subrange(esc.len() + 1int, rest.len() as int) =~= tt);
    assert(rest.subrange(0, esc.len() as int) =~= esc);
    lemma_unescape_escape(e.1);
    lemma_name_index_at(w.scopes, name, w.scopes.len() as int);
    assert(e == (e.0, e.1, e.2));
}

/// Reading the texts of carried scopes with distinct names, in order, from
/// the empty manager gives those scopes.
proof fn lemma_read_entries_texts(scopes: Seq<ScopeEntry>)
    requires
        names_distinct(scopes),
        forall|i: int| 0 <= i < scopes.len() ==> carried_scope(#[trigger] scopes[i]),
    ensures
        read_entries(empty_manager(), scopes.map_values(|e: ScopeEntry| entry_text(e))) == Ok::<
            ScopeManagerView,
            Seq<char>,
        >(ScopeManagerView { scopes: scopes, ignored: Seq::empty() }),
    decreases scopes.len(),
{
    let texts = scopes.map_values(|e: ScopeEntry| entry_text(e));
    if scopes.len() == 0 {
        assert(scopes =~= Seq::<ScopeEntry>::empty());
        assert(empty_manager() == ScopeManagerView { scopes: scopes, ignored: Seq::<Seq<char>>::empty() });
    } else {
        let front = scopes.drop_last();
        assert(texts.drop_last() =~= front.map_values(|e: ScopeEntry| entry_text(e)));
        assert forall|i: int, j: int|
            0 <= i < front.len() && 0 <= j < front.len() && i != j implies (#[trigger] front[i]).0 != (
            #[trigger] front[j]).0 by {
            assert(front[i] == scopes[i] && front[j] == scopes[j]);
        }
        assert forall|i: int| 0 <= i < front.len() implies carried_scope(#[trigger] front[i]) by {
            assert(front[i] == scopes[i]);
        }
        lemma_read_entries_texts(front);
        let last = scopes.last();
        assert(carried_scope(scopes[scopes.len() - 1]));
        assert forall|j: int| 0 <= j < front.len() implies (#[trigger] front[j]).0 != last.0 by {
            assert(front[j] == scopes[j]);
        }
        assert(texts.last() == entry_text(last));
        lemma_read_entry_text(ScopeManagerView { scopes: front, ignored: Seq::empty() }, last);
        assert(front.push(last) =~= scopes);
    }
}

/// Reading carried ignored names adds them, in order.
proof fn lemma_read_ignored_names(v: ScopeManagerView, items: Seq<Seq<char>>)
    requires
        forall|i: int| 0 <= i < items.len() ==> carried_ignored(#[trigger] items[i]),
    ensures
        read_ignored(v, items) == (ScopeManagerView { scopes: v.scopes, ignored: v.ignored + items }),
    decreases items.len(),
{
    if items.len() == 0 {
        assert(v.ignored + items =~= v.ignored);
    } else {
        let front = items.drop_last();
        assert forall|i: int| 0 <= i < front.len() implies carried_ignored(#[trigger] front[i]) by {
            assert(front[i] == items[i]);
        }
        lemma_read_ignored_names(v, front);
        let last = items.last();
        assert(carried_ignored(items[items.len() - 1]));
        lemma_trim_clean(last);
        assert((v.ignored + front).push(last) =~= v.ignored + items);
    }
}

/// Reading the `scopes:` part written for carried scopes with distinct
/// names gives those scopes.
proof fn lemma_read_scope_part(scopes: Seq<ScopeEntry>)
    requires
        scopes.len() > 0,
        names_distinct(scopes),
        forall|i: int| 0 <= i < scopes.len() ==> carried_scope(#[trigger] scopes[i]),
    ensures
        read_part(empty_manager(), "scopes:"@ + join(scopes.map_values(|e: ScopeEntry| entry_text(e)), ";"@))
            == Ok::<ScopeManagerView, Seq<char>>(ScopeManagerView { scopes: scopes, ignored: Seq::empty() }),
{
    reveal_strlit("scopes:");
    reveal_strlit("scopes");
    reveal_strlit(";");
    let texts = scopes.map_values(|e: ScopeEntry| entry_text(e));
    let data = join(texts, ";"@);
    let part = "scopes:"@ + data;
    assert forall|j: int| 0 <= j < 6 implies !((|c: char| c == ':')(#[trigger] part[j])) by {
        assert(part[j] == "scopes:"@[j]);
    }
    assert(part[6] == ':');
    lemma_first_match(part, |c: char| c == ':', 6);
    assert(part.subrange(0, 6) =~= "scopes"@);
    assert(part.subrange(7, part.len() as int) =~= data);
    assert(";"@ =~= seq![';']);
    assert(all_free_of(texts, ';')) by {
        assert forall|i: int| 0 <= i < texts.len() implies !(#[trigger] texts[i]).contains(';') by {
            lemma_entry_text_free(scopes[i]);
        }
    }
    lemma_split_join(texts, ';');
    lemma_read_entries_texts(scopes);
}

/// Reading the `ignore:` part written for carried names adds those names.
proof fn lemma_read_ignore_part(w: ScopeManagerView, ignored: Seq<Seq<char>>)
    requires
        ignored.len() > 0,
        forall|i: int| 0 <= i < ignored.len() ==> carried_ignored(#[trigger] ignored[i]),
    ensures
        read_part(w, "ignore:"@ + join(ignored, ","@)) == Ok::<ScopeManagerView, Seq<char>>(
            ScopeManagerView { scopes: w.scopes, ignored: w.ignored + ignored },
        ),
{
    reveal_strlit("ignore:");
    reveal_strlit("ignore");
    reveal_strlit("scopes");
    reveal_strlit(",");
    let data = join(ignored, ","@);
    let part = "ignore:"@ + data;
    assert forall|j: int| 0 <= j < 6 implies !((|c: char| c == ':')(#[trigger] part[j])) by {
        assert(part[j] == "ignore:"@[j]);
    }
    assert(part[6] == ':');
    lemma_first_match(part, |c: char| c == ':', 6);
    assert(part.subrange(0, 6) =~= "ignore"@);
    assert("ignore"@[0] != "scopes"@[0]);
    assert(part.subrange(7, part.len() as int) =~= data);
    assert(","@ =~= seq![',']);
    assert(all_free_of(ignored, ',')) by {
        assert forall|i: int| 0 <= i < ignored.len() implies !(#[trigger] ignored[i]).contains(',') by {
            assert(carried_ignored(ignored[i]));
        }
    }
    lemma_split_join(ignored, ',');
    lemma_read_ignored_names(w, ignored);
}

/// The `scopes:` part of the text form.
spec fn scope_part(v: ScopeManagerView) -> Seq<char> {
    "scopes:"@ + join(v.scopes.map_values(|e: ScopeEntry| entry_text(e)), ";"@)
}

/// The `ignore:` part of the text form.
spec fn ignore_part(v: ScopeManagerView) -> Seq<char> {
    "ignore:"@ + join(v.ignored, ","@)
}

/// The parts of the text form of a carried manager hold no `|`, and the
/// text form is its own trimmed form.
proof fn lemma_text_form_facts(v: ScopeManagerView)
    requires
        carried(v),
        v.scopes.len() > 0 || v.ignored.len() > 0,
    ensures
        !scope_part(v).contains('|'),
        !ignore_part(v).contains('|'),
        trim_spec(serialize_spec(v)) == serialize_spec(v),
        v.ignored.len() == 0 ==> serialize_spec(v) == scope_part(v),
        v.scopes.len() == 0 ==> serialize_spec(v) == ignore_part(v),
        v.scopes.len() > 0 && v.ignored.len() > 0 ==> serialize_spec(v) == scope_part(v) + seq!['|'] + ignore_part(v),
{
    reveal_strlit("scopes:");
    reveal_strlit("ignore:");
    reveal_strlit(";");
    reveal_strlit(",");
    reveal_strlit("|");
    let texts = v.scopes.map_values(|e: ScopeEntry| entry_text(e));
    let s = serialize_spec(v);
    assert("|"@ =~= seq!['|']);
    assert(all_free_of(texts, '|')) by {
        assert forall|i: int| 0 <= i < texts.len() implies !(#[trigger] texts[i]).contains('|') by {
            lemma_entry_text_free(v.scopes[i]);
        }
    }
    assert(all_free_of(v.ignored, '|')) by {
        assert forall|i: int| 0 <= i < v.ignored.len() implies !(#[trigger] v.ignored[i]).contains('|') by {
            assert(carried_ignored(v.ignored[i]));
        }
    }
    assert(!";"@.contains('|') && !","@.contains('|')) by {
        assert(";"@ =~= seq![';']);
        assert(","@ =~= seq![',']);
    }
    lemma_join_free(texts, ";"@, '|');
    lemma_join_free(v.ignored, ","@, '|');
    assert(!"scopes:"@.contains('|') && !"ignore:"@.contains('|')) by {
        if "scopes:"@.contains('|') {
            let i = choose|i: int| 0 <= i < 7 && "scopes:"@[i] == '|';
        }
        if "ignore:"@.contains('|') {
            let i = choose|i: int| 0 <= i < 7 && "ignore:"@[i] == '|';
        }
    }
    lemma_concat_free("scopes:"@, join(texts, ";"@), '|');
    lemma_concat_free("ignore:"@, join(v.ignored, ","@), '|');
    if v.ignored.len() > 0 {
        assert(carried_ignored(v.ignored.last()));
        lemma_join_last(v.ignored, ","@);
        assert(s.last() == ignore_part(v).last());
    } else {
        let e = v.scopes.last();
        lemma_target_round_trip(e.2);
        assert(entry_text(e).last() == target_text(e.2).last());
        assert(texts.last() == entry_text(e));
        lemma_join_last(texts, ";"@);
        assert(s == scope_part(v));
    }
    assert(!is_white_space_spec(s[0])) by {
        if v.scopes.len() > 0 {
            assert(s[0] == 's');
        } else {
            assert(s[0] == 'i');
        }
    }
    lemma_trim_clean(s);
}

/// Reading back the text form of a manager gives the manager, when no two
/// scopes share a name and every scope and ignored name is carried
/// unchanged (see `carried`).
pub proof fn lemma_text_form_round_trip(v: ScopeManagerView)
    requires
        carried(v),
    ensures
        deserialize_spec(serialize_spec(v)) == Ok::<ScopeManagerView, Seq<char>>(v),
{
    let s = serialize_spec(v);
    if v.scopes.len() == 0 && v.ignored.len() == 0 {
        assert(s =~= Seq::<char>::empty());
        assert(trim_spec(s) =~= Seq::<char>::empty());
        assert(v.scopes =~= Seq::<ScopeEntry>::empty());
        assert(v.ignored =~= Seq::<Seq<char>>::empty());
        assert(v == empty_manager());
    } else {
        lemma_text_form_facts(v);
        let p1 = scope_part(v);
        let p2 = ignore_part(v);
        let w = ScopeManagerView { scopes: v.scopes, ignored: Seq::empty() };
        let none = Seq::<Seq<char>>::empty();
        assert(read_parts(empty_manager(), none) == Ok::<ScopeManagerView, Seq<char>>(empty_manager()));
        if v.scopes.len() > 0 {
            lemma_read_scope_part(v.scopes);
            assert(read_part(empty_manager(), p1) == Ok::<ScopeManagerView, Seq<char>>(w));
        }
        if v.ignored.len() > 0 && v.scopes.len() > 0 {
            let parts = seq![p1, p2];
            assert(parts.drop_last() =~= seq![p1]);
            assert(join(seq![p1], seq!['|']) == p1);
            assert(join(parts, seq!['|']) == s);
            lemma_split_join(parts, '|');
            assert(seq![p1].drop_last() =~= none);
            assert(read_parts(empty_manager(), seq![p1]) == Ok::<ScopeManagerView, Seq<char>>(w));
            lemma_read_ignore_part(w, v.ignored);
            assert(w.ignored + v.ignored =~= v.ignored);
            assert(read_parts(empty_manager(), parts) == read_part(w, p2));
        } else if v.ignored.len() > 0 {
            let parts = seq![p2];
            assert(join(parts, seq!['|']) == s);
            lemma_split_join(parts, '|');
            assert(parts.drop_last() =~= none);
            lemma_read_ignore_part(empty_manager(), v.ignored);
            assert(empty_manager().scopes =~= v.scopes);
            assert(Seq::<Seq<char>>::empty() + v.ignored =~= v.ignored);
            assert(read_parts(empty_manager(), parts) == read_part(empty_manager(), p2));
        } else {
            let parts = seq![p1];
            assert(join(parts, seq!['|']) == s);
            lemma_split_join(parts, '|');
            assert(parts.drop_last() =~= none);
            assert(v.ignored =~= Seq::<Seq<char>>::empty());
            assert(read_parts(empty_manager(), parts) == read_part(empty_manager(), p1));
        }
    }
}


/// The number of scopes in the groups of the targets `ts`.
pub open spec fn group_sizes(v: ScopeManagerView, ts: Seq<ScopeTarget>) -> nat
    decreases ts.len(),
{
    if ts.len() == 0 {
        0
    } else {
        group_sizes(v, ts.drop_last()) + active_for_spec(v, ts.last()).len()
    }
}

/// The number of scopes of `s` with each target, added up over the targets.
pub open spec fn target_counts(s: Seq<ScopeEntry>) -> nat {
    s.filter(has_target(ScopeTarget::Select)).len() + s.filter(has_target(ScopeTarget::From)).len() + s.filter(
        has_target(ScopeTarget::Join),
    ).len() + s.filter(has_target(ScopeTarget::Where)).len() + s.filter(has_target(ScopeTarget::GroupBy)).len()
        + s.filter(has_target(ScopeTarget::Having)).len() + s.filter(has_target(ScopeTarget::OrderBy)).len()
}

/// Every scope has exactly one target.
proof fn lemma_target_counts(s: Seq<ScopeEntry>)
    ensures
        target_counts(s) == s.len(),
    decreases s.len(),
{
    reveal(Seq::filter);
    if s.len() > 0 {
        lemma_target_counts(s.drop_last());
    }
}

/// Leaving out the targets without a group leaves the total unchanged.
proof fn lemma_group_sizes_filter(v: ScopeManagerView, ts: Seq<ScopeTarget>)
    ensures
        group_sizes(v, ts.filter(has_group(v))) == group_sizes(v, ts),
    decreases ts.len(),
{
    reveal(Seq::filter);
    if ts.len() > 0 {
        lemma_group_sizes_filter(v, ts.drop_last());
        let sub = ts.drop_last().filter(has_group(v));
        if has_group(v)(ts.last()) {
            assert(sub.push(ts.last()).drop_last() =~= sub);
        }
    }
}

/// Grouping the active scopes by target loses and repeats none: the sizes
/// of the groups that `get_scopes_by_target` lists add up to the number of
/// active scopes (`get_active_scopes`).
pub proof fn law_group_sizes_sum(v: ScopeManagerView)
    ensures
        group_sizes(v, grouped_targets(v)) == active_spec(v).len(),
{
    lemma_group_sizes_filter(v, all_targets());
    let ts = all_targets();
    assert(ts.drop_last().drop_last().drop_last().drop_last().drop_last().drop_last().drop_last()
        =~= Seq::<ScopeTarget>::empty());
    reveal_with_fuel(group_sizes, 8);
    assert(group_sizes(v, ts) == target_counts(active_spec(v)));
    lemma_target_counts(active_spec(v));
}


/// A character of an identifier: an ASCII letter, digit or `_`.
pub open spec fn ident_char(c: char) -> bool {
    ('a' <= c <= 'z') || ('A' <= c <= 'Z') || ('0' <= c <= '9') || c == '_'
}

/// An identifier: `[A-Za-z_][A-Za-z0-9_]*`.
pub open spec fn is_identifier(n: Seq<char>) -> bool {
    &&& n.len() > 0
    &&& !('0' <= n[0] <= '9')
    &&& forall|i: int| 0 <= i < n.len() ==> ident_char(#[trigger] n[i])
}

/// A call that builds a scope manager, with what it was given.
pub enum ManagerCall {
    AddScope(Seq<char>, Seq<char>, ScopeTarget),
    AddIgnored(Seq<char>),
}

/// The manager after `ScopeManager::add_scope` or
/// `ScopeManager::add_ignored_scope` (as their contracts state).
pub open spec fn apply_call(v: ScopeManagerView, c: ManagerCall) -> ScopeManagerView {
    match c {
        ManagerCall::AddScope(n, sql, t) => add_scope_spec(v, n, sql, t),
        ManagerCall::AddIgnored(n) => ScopeManagerView { scopes: v.scopes, ignored: v.ignored.push(n) },
    }
}

/// The manager that `ScopeManager::new` and then the calls `calls` build.
pub open spec fn built_manager(calls: Seq<ManagerCall>) -> ScopeManagerView
    decreases calls.len(),
{
    if calls.len() == 0 {
        empty_manager()
    } else {
        apply_call(built_manager(calls.drop_last()), calls.last())
    }
}

/// A call whose names are identifiers and whose scope SQL holds neither
/// `;` nor `|`.
pub open spec fn plain_call(c: ManagerCall) -> bool {
    match c {
        ManagerCall::AddScope(n, sql, _) => is_identifier(n) && !sql.contains(';') && !sql.contains('|'),
        ManagerCall::AddIgnored(n) => is_identifier(n),
    }
}

/// An identifier holds no white space and none of the separators.
proof fn lemma_identifier_clean(n: Seq<char>)
    requires
        is_identifier(n),
    ensures
        trim_spec(n) == n,
        !n.contains('='),
        !n.contains(';'),
        !n.contains('|'),
        !n.contains(','),
        !is_white_space_spec(n[0]),
        !is_white_space_spec(n.last()),
{
    assert(ident_char(n[0]));
    assert(ident_char(n[n.len() - 1]));
    lemma_trim_clean(n);
    assert forall|c: char| c == '=' || c == ';' || c == '|' || c == ',' implies !n.contains(c) by {
        if n.contains(c) {
            let i = choose|i: int| 0 <= i < n.len() && n[i] == c;
            assert(ident_char(n[i]));
        }
    }
}

/// The manager built by plain calls is one the text form carries.
proof fn lemma_built_carried(calls: Seq<ManagerCall>)
    requires
        forall|i: int| 0 <= i < calls.len() ==> plain_call(#[trigger] calls[i]),
    ensures
        carried(built_manager(calls)),
    decreases calls.len(),
{
    if calls.len() > 0 {
        let before = calls.drop_last();
        assert forall|i: int| 0 <= i < before.len() implies plain_call(#[trigger] before[i]) by {
            assert(before[i] == calls[i]);
        }
        lemma_built_carried(before);
        let v = built_manager(before);
        let c = calls.last();
        assert(plain_call(calls[calls.len() - 1]));
        match c {
            ManagerCall::AddScope(n, sql, t) => {
                lemma_identifier_clean(n);
                lemma_add_scope_lookup(v, n, sql, t, n);
                let w = add_scope_spec(v, n, sql, t);
                let k = name_index(v.scopes, n);
                assert forall|i: int| 0 <= i < w.scopes.len() implies carried_scope(#[trigger] w.scopes[i]) by {
                    if k < v.scopes.len() {
                        if i != k {
                            assert(w.scopes[i] == v.scopes[i]);
                        }
                    } else if i < v.scopes.len() {
                        assert(w.scopes[i] == v.scopes[i]);
                    }
                }
            },
            ManagerCall::AddIgnored(n) => {
                lemma_identifier_clean(n);
                let w = apply_call(v, c);
                assert forall|i: int| 0 <= i < w.ignored.len() implies carried_ignored(#[trigger] w.ignored[i]) by {
                    if i < v.ignored.len() {
                        assert(w.ignored[i] == v.ignored[i]);
                    }
                }
            },
        }
    }
}

/// A manager built from `ScopeManager::new` by `add_scope` and
/// `add_ignored_scope` calls whose names are identifiers and whose scope SQL
/// holds neither `;` nor `|` reads back from its text form
/// (`serialize_for_injection`, then `deserialize_from_injection`) as the
/// same manager: the same scopes with the same SQL and targets, and the same
/// ignored names in the same order.
pub proof fn law_built_manager_round_trip(calls: Seq<ManagerCall>)
    requires
        forall|i: int| 0 <= i < calls.len() ==> plain_call(#[trigger] calls[i]),
    ensures
        deserialize_spec(serialize_spec(built_manager(calls))) == Ok::<ScopeManagerView, Seq<char>>(
            built_manager(calls),
        ),
{
    lemma_built_carried(calls);
    lemma_text_form_round_trip(built_manager(calls));
}

} // verus!
