//! Scopes: named SQL fragments declared on a repository and added to the
//! queries of its methods (to their `WHERE`, `SELECT`, `ORDER BY`, ...
//! clauses) unless a method ignores them; and their text form, which carries
//! them from the repository to each method.
use vstd::prelude::*;
use crate::error::MacroError;
use crate::named_params::{join, join_names, contains_name};
use crate::syntax::{first_match, lemma_first_match};
use crate::text::{
    str_eq, string_of, eq_ignore_ascii_case, eq_ignore_ascii_case_spec, split_char, split_spec, find_char,
    find_last_char, last_index_of, lemma_last_index_of, unescape_char, unescape_pair, escape_quotes_semicolons,
    escape_spec, trim_range, trim_spec,
};

verus! {

/// The clause a scope is added to.
#[derive(Debug, Clone, Copy, PartialEq, Eq, Hash, Structural)]
pub enum ScopeTarget {
    Select,
    From,
    Join,
    /// The default.
    Where,
    GroupBy,
    Having,
    OrderBy,
}

/// The target a name gives, compared without regard to ASCII case:
/// `select`, `from`, `join`, `where`, `group_by`/`groupby`, `having`,
/// `order_by`/`orderby`.
pub open spec fn target_from_spec(s: Seq<char>) -> Option<ScopeTarget> {
    if eq_ignore_ascii_case_spec(s, "select"@) {
        Some(ScopeTarget::Select)
    } else if eq_ignore_ascii_case_spec(s, "from"@) {
        Some(ScopeTarget::From)
    } else if eq_ignore_ascii_case_spec(s, "join"@) {
        Some(ScopeTarget::Join)
    } else if eq_ignore_ascii_case_spec(s, "where"@) {
        Some(ScopeTarget::Where)
    } else if eq_ignore_ascii_case_spec(s, "group_by"@) || eq_ignore_ascii_case_spec(s, "groupby"@) {
        Some(ScopeTarget::GroupBy)
    } else if eq_ignore_ascii_case_spec(s, "having"@) {
        Some(ScopeTarget::Having)
    } else if eq_ignore_ascii_case_spec(s, "order_by"@) || eq_ignore_ascii_case_spec(s, "orderby"@) {
        Some(ScopeTarget::OrderBy)
    } else {
        None
    }
}

/// The error for an unknown target name.
pub open spec fn invalid_target_message(s: Seq<char>) -> Seq<char> {
    "Invalid scope target: '"@ + s + "'. Valid targets: select, from, join, where, group_by, having, order_by"@
}

/// The name a target is written with.
pub open spec fn target_text(t: ScopeTarget) -> Seq<char> {
    match t {
        ScopeTarget::Select => "select"@,
        ScopeTarget::From => "from"@,
        ScopeTarget::Join => "join"@,
        ScopeTarget::Where => "where"@,
        ScopeTarget::GroupBy => "group_by"@,
        ScopeTarget::Having => "having"@,
        ScopeTarget::OrderBy => "order_by"@,
    }
}

impl ScopeTarget {
    /// The target named by `s` (see `target_from_spec`).
    pub fn from_string(s: &str) -> (r: Result<ScopeTarget, MacroError>)
        ensures
            match target_from_spec(s@) {
                Some(t) => r == Ok::<ScopeTarget, MacroError>(t),
                None => r matches Err(e) && e.message@ == invalid_target_message(s@),
            },
    {
        if eq_ignore_ascii_case(s, "select") {
            Ok(ScopeTarget::Select)
        } else if eq_ignore_ascii_case(s, "from") {
            Ok(ScopeTarget::From)
        } else if eq_ignore_ascii_case(s, "join") {
            Ok(ScopeTarget::Join)
        } else if eq_ignore_ascii_case(s, "where") {
            Ok(ScopeTarget::Where)
        } else if eq_ignore_ascii_case(s, "group_by") || eq_ignore_ascii_case(s, "groupby") {
            Ok(ScopeTarget::GroupBy)
        } else if eq_ignore_ascii_case(s, "having") {
            Ok(ScopeTarget::Having)
        } else if eq_ignore_ascii_case(s, "order_by") || eq_ignore_ascii_case(s, "orderby") {
            Ok(ScopeTarget::OrderBy)
        } else {
            let mut msg = string_of("Invalid scope target: '");
            msg.append(s);
            msg.append("'. Valid targets: select, from, join, where, group_by, having, order_by");
            Err(MacroError::new(msg))
        }
    }

    /// The name the target is written with.
    pub fn as_str(&self) -> (r: &'static str)
        ensures
            r@ == target_text(*self),
    {
        match self {
            ScopeTarget::Select => "select",
            ScopeTarget::From => "from",
            ScopeTarget::Join => "join",
            ScopeTarget::Where => "where",
            ScopeTarget::GroupBy => "group_by",
            ScopeTarget::Having => "having",
            ScopeTarget::OrderBy => "order_by",
        }
    }
}

/// A scope: its name, its SQL and its target clause.
#[derive(Debug)]
pub struct ScopeDefinition {
    pub name: String,
    pub sql: String,
    pub target: ScopeTarget,
}

/// The abstract content of a scope: name, SQL, target.
pub type ScopeEntry = (Seq<char>, Seq<char>, ScopeTarget);

/// The abstract content of a scope definition.
pub open spec fn entry_of(d: ScopeDefinition) -> ScopeEntry {
    (d.name@, d.sql@, d.target)
}

/// The abstract contents of a list of scope references.
pub open spec fn entries_of(v: Seq<&ScopeDefinition>) -> Seq<ScopeEntry> {
    v.map_values(|d: &ScopeDefinition| entry_of(*d))
}

/// The scopes of a repository (in the order they were first declared) and
/// the names of the scopes a method ignores.
#[derive(Debug)]
pub struct ScopeManager {
    scopes: Vec<ScopeDefinition>,
    ignored_scopes: Vec<String>,
}

/// The abstract content of a scope manager.
pub struct ScopeManagerView {
    pub scopes: Seq<ScopeEntry>,
    pub ignored: Seq<Seq<char>>,
}

impl View for ScopeManager {
    type V = ScopeManagerView;

    closed spec fn view(&self) -> ScopeManagerView {
        ScopeManagerView {
            scopes: self.scopes@.map_values(|d: ScopeDefinition| entry_of(d)),
            ignored: self.ignored_scopes.deep_view(),
        }
    }
}

/// Index of the scope named `n`, or `scopes.len()`.
pub open spec fn name_index(scopes: Seq<ScopeEntry>, n: Seq<char>) -> nat {
    first_match(scopes, |e: ScopeEntry| e.0 == n)
}

/// Adding a scope: it replaces the scope of the same name, or comes last.
pub open spec fn add_scope_spec(v: ScopeManagerView, n: Seq<char>, sql: Seq<char>, t: ScopeTarget) -> ScopeManagerView {
    let k = name_index(v.scopes, n);
    ScopeManagerView {
        scopes: if k < v.scopes.len() { v.scopes.update(k as int, (n, sql, t)) } else { v.scopes.push((n, sql, t)) },
        ignored: v.ignored,
    }
}

/// The scopes that are not ignored, in order.
pub open spec fn active_spec(v: ScopeManagerView) -> Seq<ScopeEntry> {
    v.scopes.filter(|e: ScopeEntry| !v.ignored.contains(e.0))
}

/// Whether a scope has target `t`.
pub open spec fn has_target(t: ScopeTarget) -> spec_fn(ScopeEntry) -> bool {
    |e: ScopeEntry| e.2 == t
}

/// The active scopes with target `t`, in order.
pub open spec fn active_for_spec(v: ScopeManagerView, t: ScopeTarget) -> Seq<ScopeEntry> {
    active_spec(v).filter(has_target(t))
}

/// The targets in the order their groups are listed.
pub open spec fn all_targets() -> Seq<ScopeTarget> {
    seq![
        ScopeTarget::Select,
        ScopeTarget::From,
        ScopeTarget::Join,
        ScopeTarget::Where,
        ScopeTarget::GroupBy,
        ScopeTarget::Having,
        ScopeTarget::OrderBy,
    ]
}

/// Whether target `t` has active scopes.
pub open spec fn has_group(v: ScopeManagerView) -> spec_fn(ScopeTarget) -> bool {
    |t: ScopeTarget| active_for_spec(v, t).len() > 0
}

/// The targets that have active scopes, in the order of `all_targets`.
pub open spec fn grouped_targets(v: ScopeManagerView) -> Seq<ScopeTarget> {
    all_targets().filter(has_group(v))
}

/// One scope in its text form: `name=sql:target`, with `"` and `;` in the
/// SQL escaped.
pub open spec fn entry_text(e: ScopeEntry) -> Seq<char> {
    e.0 + "="@ + escape_spec(e.1) + ":"@ + target_text(e.2)
}

/// The text form of a scope manager: `scopes:` and the scopes joined by `;`,
/// then `ignore:` and the ignored names joined by `,`, the two parts (those
/// that are not empty) joined by `|`.
pub open spec fn serialize_spec(v: ScopeManagerView) -> Seq<char> {
    let scope_part = "scopes:"@ + join(v.scopes.map_values(|e: ScopeEntry| entry_text(e)), ";"@);
    let ignore_part = "ignore:"@ + join(v.ignored, ","@);
    if v.scopes.len() == 0 && v.ignored.len() == 0 {
        Seq::empty()
    } else if v.ignored.len() == 0 {
        scope_part
    } else if v.scopes.len() == 0 {
        ignore_part
    } else {
        scope_part + "|"@ + ignore_part
    }
}

/// The manager with no scopes and nothing ignored.
pub open spec fn empty_manager() -> ScopeManagerView {
    ScopeManagerView { scopes: Seq::empty(), ignored: Seq::empty() }
}

/// Reading one `name=sql:target` entry: entries without `=` are skipped; the
/// target is after the last `:`; the name is trimmed and the SQL unescaped.
pub open spec fn read_entry(v: ScopeManagerView, entry: Seq<char>) -> Result<ScopeManagerView, Seq<char>> {
    let eq = first_match(entry, |c: char| c == '=');
    if eq >= entry.len() {
        Ok(v)
    } else {
        let name = entry.subrange(0, eq as int);
        let rest = entry.subrange(eq + 1int, entry.len() as int);
        let colon = last_index_of(rest, ':');
        if colon < 0 {
            Err("Invalid scope format, missing target: '"@ + entry + "'"@)
        } else {
            let target = rest.subrange(colon + 1, rest.len() as int);
            match target_from_spec(target) {
                None => Err(invalid_target_message(target)),
                Some(t) => Ok(add_scope_spec(
                    v,
                    trim_spec(name),
                    unescape_pair(unescape_pair(rest.subrange(0, colon), '"'), ';'),
                    t,
                )),
            }
        }
    }
}

/// Reading the entries in order, stopping at the first error.
pub open spec fn read_entries(v: ScopeManagerView, entries: Seq<Seq<char>>) -> Result<ScopeManagerView, Seq<char>>
    decreases entries.len(),
{
    if entries.len() == 0 {
        Ok(v)
    } else {
        match read_entries(v, entries.drop_last()) {
            Err(e) => Err(e),
            Ok(w) => read_entry(w, entries.last()),
        }
    }
}

/// Reading ignored names: each trimmed, the empty ones skipped.
pub open spec fn read_ignored(v: ScopeManagerView, items: Seq<Seq<char>>) -> ScopeManagerView
    decreases items.len(),
{
    if items.len() == 0 {
        v
    } else {
        let w = read_ignored(v, items.drop_last());
        let t = trim_spec(items.last());
        if t.len() > 0 { ScopeManagerView { scopes: w.scopes, ignored: w.ignored.push(t) } } else { w }
    }
}

/// Reading one `prefix:data` part.
pub open spec fn read_part(v: ScopeManagerView, part: Seq<char>) -> Result<ScopeManagerView, Seq<char>> {
    let colon = first_match(part, |c: char| c == ':');
    if colon >= part.len() {
        Err("Invalid scope format in injection: '"@ + part + "'"@)
    } else {
        let prefix = part.subrange(0, colon as int);
        let data = part.subrange(colon + 1int, part.len() as int);
        if prefix == "scopes"@ {
            read_entries(v, split_spec(data, ';'))
        } else if prefix == "ignore"@ {
            Ok(read_ignored(v, split_spec(data, ',')))
        } else {
            Err("Invalid scope prefix in injection: '"@ + prefix + "'"@)
        }
    }
}

/// Reading the parts in order, stopping at the first error.
pub open spec fn read_parts(v: ScopeManagerView, parts: Seq<Seq<char>>) -> Result<ScopeManagerView, Seq<char>>
    decreases parts.len(),
{
    if parts.len() == 0 {
        Ok(v)
    } else {
        match read_parts(v, parts.drop_last()) {
            Err(e) => Err(e),
            Ok(w) => read_part(w, parts.last()),
        }
    }
}

/// Reading a text form: empty (after trimming) gives the empty manager;
/// otherwise the parts separated by `|` are read in order.
pub open spec fn deserialize_spec(s: Seq<char>) -> Result<ScopeManagerView, Seq<char>> {
    let t = trim_spec(s);
    if t.len() == 0 {
        Ok(empty_manager())
    } else {
        read_parts(empty_manager(), split_spec(t, '|'))
    }
}

/// An error for a prefix of the entries is the error for all of them.
pub proof fn lemma_read_entries_err_extends(v: ScopeManagerView, entries: Seq<Seq<char>>, k: int)
    requires
        0 <= k <= entries.len(),
        read_entries(v, entries.subrange(0, k)) is Err,
    ensures
        read_entries(v, entries) == read_entries(v, entries.subrange(0, k)),
    decreases entries.len() - k,
{
    if k < entries.len() {
        assert(entries.subrange(0, k + 1).drop_last() =~= entries.subrange(0, k));
        lemma_read_entries_err_extends(v, entries, k + 1);
    } else {
        assert(entries.subrange(0, k) =~= entries);
    }
}

/// An error for a prefix of the parts is the error for all of them.
pub proof fn lemma_read_parts_err_extends(v: ScopeManagerView, parts: Seq<Seq<char>>, k: int)
    requires
        0 <= k <= parts.len(),
        read_parts(v, parts.subrange(0, k)) is Err,
    ensures
        read_parts(v, parts) == read_parts(v, parts.subrange(0, k)),
    decreases parts.len() - k,
{
    if k < parts.len() {
        assert(parts.subrange(0, k + 1).drop_last() =~= parts.subrange(0, k));
        lemma_read_parts_err_extends(v, parts, k + 1);
    } else {
        assert(parts.subrange(0, k) =~= parts);
    }
}

impl ScopeManager {
    /// A manager with no scopes and nothing ignored.
    pub fn new() -> (r: Self)
        ensures
            r@ == empty_manager(),
    {
        let r = ScopeManager { scopes: Vec::new(), ignored_scopes: Vec::new() };
        assert(r@.scopes =~= Seq::<ScopeEntry>::empty());
        assert(r@.ignored =~= Seq::<Seq<char>>::empty());
        r
    }

    /// Index of the scope named `name`, or the number of scopes.
    fn find_scope(&self, name: &str) -> (r: usize)
        ensures
            r == name_index(self@.scopes, name@),
            r <= self@.scopes.len(),
    {
        let ghost sv = self@.scopes;
        let mut k: usize = 0;
        while k < self.scopes.len()
            invariant
                k <= self.scopes@.len(),
                sv == self@.scopes,
                forall|j: int| 0 <= j < k ==> (#[trigger] sv[j]).0 != name@,
            decreases self.scopes@.len() - k,
        {
            if str_eq(self.scopes[k].name.as_str(), name) {
                proof {
                    assert(sv[k as int].0 == name@);
                    lemma_first_match(sv, |e: ScopeEntry| e.0 == name@, k as int);
                }
                return k;
            }
            k = k + 1;
        }
        proof { lemma_first_match(sv, |e: ScopeEntry| e.0 == name@, k as int); }
        k
    }

    /// Adds a scope; it replaces the scope of the same name.
    pub fn add_scope(&mut self, scope_name: String, sql: String, target: ScopeTarget)
        ensures
            final(self)@ == add_scope_spec(old(self)@, scope_name@, sql@, target),
    {
        let ghost n = scope_name@;
        let k = self.find_scope(scope_name.as_str());
        let ghost sql_view = sql@;
        let definition = ScopeDefinition { name: scope_name, sql, target };
        if k < self.scopes.len() {
            self.scopes.set(k, definition);
        } else {
            self.scopes.push(definition);
        }
        proof {
            let expected = add_scope_spec(old(self)@, n, sql_view, target);
            assert(self@.scopes =~= expected.scopes);
        }
    }

    /// Marks the scope `scope_name` as ignored.
    pub fn add_ignored_scope(&mut self, scope_name: String)
        ensures
            final(self)@.scopes == old(self)@.scopes,
            final(self)@.ignored == old(self)@.ignored.push(scope_name@),
    {
        let ghost before = self@;
        self.ignored_scopes.push(scope_name);
        assert(self@.ignored =~= before.ignored.push(scope_name@));
        assert(self@.scopes =~= before.scopes);
    }

    /// The scopes that are not ignored, in order.
    pub fn get_active_scopes(&self) -> (r: Vec<&ScopeDefinition>)
        ensures
            entries_of(r@) == active_spec(self@),
    {
        let ghost sv = self@.scopes;
        let ghost pred = |e: ScopeEntry| !self@.ignored.contains(e.0);
        proof { reveal(Seq::filter); }
        let mut out: Vec<&ScopeDefinition> = Vec::new();
        let mut i: usize = 0;
        while i < self.scopes.len()
            invariant
                i <= self.scopes@.len(),
                sv == self@.scopes,
                pred == (|e: ScopeEntry| !self@.ignored.contains(e.0)),
                entries_of(out@) == sv.subrange(0, i as int).filter(pred),
            decreases self.scopes@.len() - i,
        {
            let d = &self.scopes[i];
            proof {
                assert(sv.subrange(0, i + 1).drop_last() =~= sv.subrange(0, i as int));
                assert(sv[i as int] == entry_of(*d));
                assert(sv.subrange(0, i + 1).last() == sv[i as int]);
            }
            let keep = !contains_name(&self.ignored_scopes, d.name.as_str());
            proof { reveal(Seq::filter); }
            if keep {
                let ghost before = out@;
                out.push(d);
                assert(entries_of(out@) =~= entries_of(before).push(entry_of(*d)));
            }
            i = i + 1;
        }
        assert(sv.subrange(0, self.scopes@.len() as int) =~= sv);
        out
    }

    /// The active scopes with target `target`, in order.
    pub fn scopes_for_target(&self, target: ScopeTarget) -> (r: Vec<&ScopeDefinition>)
        ensures
            entries_of(r@) == active_for_spec(self@, target),
    {
        let active = self.get_active_scopes();
        let ghost av = entries_of(active@);
        proof { reveal(Seq::filter); }
        let ghost pred = has_target(target);
        let mut out: Vec<&ScopeDefinition> = Vec::new();
        let mut i: usize = 0;
        while i < active.len()
            invariant
                i <= active@.len(),
                av == entries_of(active@),
                pred == has_target(target),
                entries_of(out@) == av.subrange(0, i as int).filter(pred),
            decreases active@.len() - i,
        {
            let d = active[i];
            proof {
                assert(av.subrange(0, i + 1).drop_last() =~= av.subrange(0, i as int));
                assert(av[i as int] == entry_of(*d));
                assert(av.subrange(0, i + 1).last() == av[i as int]);
                reveal(Seq::filter);
            }
            if d.target == target {
                let ghost before = out@;
                out.push(d);
                assert(entries_of(out@) =~= entries_of(before).push(entry_of(*d)));
            }
            i = i + 1;
        }
        assert(av.subrange(0, active@.len() as int) =~= av);
        out
    }

    /// The active scopes grouped by target: one group per target that has
    /// some, in the order of `all_targets`.
    pub fn get_scopes_by_target(&self) -> (r: Vec<(ScopeTarget, Vec<&ScopeDefinition>)>)
        ensures
            r@.map_values(|g: (ScopeTarget, Vec<&ScopeDefinition>)| g.0) == grouped_targets(self@),
            forall|i: int| 0 <= i < r@.len() ==> entries_of((#[trigger] r@[i]).1@) == active_for_spec(self@, r@[i].0),
    {
        let targets: [ScopeTarget; 7] = [
            ScopeTarget::Select,
            ScopeTarget::From,
            ScopeTarget::Join,
            ScopeTarget::Where,
            ScopeTarget::GroupBy,
            ScopeTarget::Having,
            ScopeTarget::OrderBy,
        ];
        assert(targets@ =~= all_targets());
        proof { reveal(Seq::filter); }
        let ghost pred = has_group(self@);
        let mut out: Vec<(ScopeTarget, Vec<&ScopeDefinition>)> = Vec::new();
        let mut i: usize = 0;
        while i < 7
            invariant
                i <= 7,
                targets@ == all_targets(),
                pred == has_group(self@),
                out@.map_values(|g: (ScopeTarget, Vec<&ScopeDefinition>)| g.0) == all_targets().subrange(0, i as int).filter(pred),
                forall|j: int| 0 <= j < out@.len() ==> entries_of((#[trigger] out@[j]).1@) == active_for_spec(self@, out@[j].0),
            decreases 7 - i,
        {
            let t = targets[i];
            let group = self.scopes_for_target(t);
            proof {
                assert(all_targets().subrange(0, i + 1).drop_last() =~= all_targets().subrange(0, i as int));
                assert(all_targets().subrange(0, i + 1).last() == t);
                reveal(Seq::filter);
            }
            if group.len() > 0 {
                let ghost before = out@;
                out.push((t, group));
                assert(out@.map_values(|g: (ScopeTarget, Vec<&ScopeDefinition>)| g.0) =~= before.map_values(
                    |g: (ScopeTarget, Vec<&ScopeDefinition>)| g.0,
                ).push(t));
            }
            i = i + 1;
        }
        assert(all_targets().subrange(0, 7) =~= all_targets());
        out
    }

    /// An exact copy.
    pub fn copy(&self) -> (r: Self)
        ensures
            r@ == self@,
    {
        let mut scopes: Vec<ScopeDefinition> = Vec::new();
        let mut i: usize = 0;
        while i < self.scopes.len()
            invariant
                i <= self.scopes@.len(),
                scopes@.len() == i,
                forall|j: int| 0 <= j < i ==> entry_of(#[trigger] scopes@[j]) == entry_of(self.scopes@[j]),
            decreases self.scopes@.len() - i,
        {
            let d = &self.scopes[i];
            scopes.push(ScopeDefinition { name: d.name.clone(), sql: d.sql.clone(), target: d.target });
            i = i + 1;
        }
        let mut ignored: Vec<String> = Vec::new();
        let mut k: usize = 0;
        while k < self.ignored_scopes.len()
            invariant
                k <= self.ignored_scopes@.len(),
                ignored@.len() == k,
                forall|j: int| 0 <= j < k ==> (#[trigger] ignored@[j])@ == self.ignored_scopes@[j]@,
            decreases self.ignored_scopes@.len() - k,
        {
            ignored.push(self.ignored_scopes[k].clone());
            k = k + 1;
        }
        let r = ScopeManager { scopes, ignored_scopes: ignored };
        assert(r@.scopes =~= self@.scopes);
        assert(r@.ignored =~= self@.ignored);
        r
    }

    /// Whether some scope is active.
    pub fn has_active_scopes(&self) -> (r: bool)
        ensures
            r == (active_spec(self@).len() > 0),
    {
        self.get_active_scopes().len() > 0
    }

    /// The names of all scopes, in order.
    pub fn get_scope_names(&self) -> (r: Vec<String>)
        ensures
            r.deep_view() == self@.scopes.map_values(|e: ScopeEntry| e.0),
    {
        let mut out: Vec<String> = Vec::new();
        let mut i: usize = 0;
        while i < self.scopes.len()
            invariant
                i <= self.scopes@.len(),
                out.deep_view() == self@.scopes.subrange(0, i as int).map_values(|e: ScopeEntry| e.0),
            decreases self.scopes@.len() - i,
        {
            let ghost before = out.deep_view();
            out.push(self.scopes[i].name.clone());
            proof {
                assert(out.deep_view() =~= before.push(self.scopes@[i as int].name@));
                assert(self@.scopes.subrange(0, i + 1).map_values(|e: ScopeEntry| e.0) =~= self@.scopes.subrange(0, i as int).map_values(
                    |e: ScopeEntry| e.0,
                ).push(self.scopes@[i as int].name@));
            }
            i = i + 1;
        }
        assert(self@.scopes.subrange(0, self.scopes@.len() as int) =~= self@.scopes);
        out
    }

    /// The names of the ignored scopes, in order.
    pub fn get_ignored_scope_names(&self) -> (r: Vec<String>)
        ensures
            r.deep_view() == self@.ignored,
    {
        let mut out: Vec<String> = Vec::new();
        let mut i: usize = 0;
        while i < self.ignored_scopes.len()
            invariant
                i <= self.ignored_scopes@.len(),
                out.deep_view() == self@.ignored.subrange(0, i as int),
            decreases self.ignored_scopes@.len() - i,
        {
            let ghost before = out.deep_view();
            out.push(self.ignored_scopes[i].clone());
            proof {
                assert(out.deep_view() =~= before.push(self.ignored_scopes@[i as int]@));
                assert(self@.ignored.subrange(0, i + 1) =~= self@.ignored.subrange(0, i as int).push(self.ignored_scopes@[i as int]@));
            }
            i = i + 1;
        }
        assert(self@.ignored.subrange(0, self.ignored_scopes@.len() as int) =~= self@.ignored);
        out
    }

    /// The text form (see `serialize_spec`).
    pub fn serialize_for_injection(&self) -> (r: String)
        ensures
            r@ == serialize_spec(self@),
    {
        if self.scopes.len() == 0 && self.ignored_scopes.len() == 0 {
            return String::new();
        }
        let mut entries: Vec<String> = Vec::new();
        let mut i: usize = 0;
        while i < self.scopes.len()
            invariant
                i <= self.scopes@.len(),
                entries.deep_view() == self@.scopes.subrange(0, i as int).map_values(|e: ScopeEntry| entry_text(e)),
            decreases self.scopes@.len() - i,
        {
            let d = &self.scopes[i];
            let mut text = d.name.clone();
            text.append("=");
            text.append(escape_quotes_semicolons(d.sql.as_str()).as_str());
            text.append(":");
            text.append(d.target.as_str());
            proof {
                reveal_strlit("=");
                reveal_strlit(":");
                assert(text@ =~= entry_text(entry_of(*d)));
            }
            let ghost before = entries.deep_view();
            entries.push(text);
            proof {
                assert(entries.deep_view() =~= before.push(entry_text(entry_of(*d))));
                assert(self@.scopes.subrange(0, i + 1).map_values(|e: ScopeEntry| entry_text(e)) =~= self@.scopes.subrange(
                    0,
                    i as int,
                ).map_values(|e: ScopeEntry| entry_text(e)).push(entry_text(entry_of(*d))));
            }
            i = i + 1;
        }
        assert(self@.scopes.subrange(0, self.scopes@.len() as int) =~= self@.scopes);
        let mut scope_part = string_of("scopes:");
        scope_part.append(join_names(&entries, ";").as_str());
        let mut ignore_part = string_of("ignore:");
        ignore_part.append(join_names(&self.ignored_scopes, ",").as_str());
        if self.ignored_scopes.len() == 0 {
            scope_part
        } else if self.scopes.len() == 0 {
            ignore_part
        } else {
            let mut all = scope_part;
            all.append("|");
            all.append(ignore_part.as_str());
            all
        }
    }

    /// Reads one `name=sql:target` entry into this manager.
    fn read_entry_into(&mut self, entry: &str) -> (r: Result<(), MacroError>)
        ensures
            match read_entry(old(self)@, entry@) {
                Ok(v) => r is Ok && final(self)@ == v,
                Err(m) => r matches Err(e) && e.message@ == m,
            },
    {
        let n = entry.unicode_len();
        let eq = match find_char(entry, '=') {
            Some(k) => k,
            None => {
                proof { lemma_first_match(entry@, |c: char| c == '=', entry@.len() as int); }
                return Ok(());
            },
        };
        proof { lemma_first_match(entry@, |c: char| c == '=', eq as int); }
        let rest = entry.substring_char(eq + 1, n);
        let colon = match find_last_char(rest, ':') {
            Some(k) => k,
            None => {
                let mut msg = string_of("Invalid scope format, missing target: '");
                msg.append(entry);
                msg.append("'");
                return Err(MacroError::new(msg));
            },
        };
        proof { lemma_last_index_of(rest@, ':'); }
        let target_str = rest.substring_char(colon + 1, rest.unicode_len());
        let target = match ScopeTarget::from_string(target_str) {
            Ok(t) => t,
            Err(e) => return Err(e),
        };
        let name = trim_range(entry, 0, eq);
        let sql = unescape_char(unescape_char(rest.substring_char(0, colon), '"').as_str(), ';');
        proof {
            assert(entry@.subrange(0, eq as int).subrange(0, eq as int) =~= entry@.subrange(0, eq as int));
        }
        self.add_scope(string_of(name), sql, target);
        Ok(())
    }

    /// Reads a text form (see `deserialize_spec`).
    pub fn deserialize_from_injection(serialized: &str) -> (r: Result<ScopeManager, MacroError>)
        ensures
            match deserialize_spec(serialized@) {
                Ok(v) => r matches Ok(m) && m@ == v,
                Err(msg) => r matches Err(e) && e.message@ == msg,
            },
    {
        let mut manager = ScopeManager::new();
        let t = trim_range(serialized, 0, serialized.unicode_len());
        proof {
            assert(serialized@.subrange(0, serialized@.len() as int) =~= serialized@);
        }
        if t.unicode_len() == 0 {
            return Ok(manager);
        }
        let parts = split_char(t, '|');
        let ghost pv = parts.deep_view();
        let mut i: usize = 0;
        assert(pv.subrange(0, 0) =~= Seq::<Seq<char>>::empty());
        while i < parts.len()
            invariant
                i <= parts@.len(),
                pv == parts.deep_view(),
                pv == split_spec(t@, '|'),
                trim_spec(serialized@) == t@,
                t@.len() > 0,
                read_parts(empty_manager(), pv.subrange(0, i as int)) == Ok::<ScopeManagerView, Seq<char>>(manager@),
            decreases parts@.len() - i,
        {
            let part = parts[i].as_str();
            let ghost before = manager@;
            proof {
                assert(pv.subrange(0, i + 1).drop_last() =~= pv.subrange(0, i as int));
                assert(pv[i as int] == part@);
                assert(pv.subrange(0, i + 1).last() == pv[i as int]);
            }
            let step = manager.read_part_into(part);
            match step {
                Ok(()) => {},
                Err(e) => {
                    proof { lemma_read_parts_err_extends(empty_manager(), pv, i + 1); }
                    return Err(e);
                },
            }
            i = i + 1;
        }
        assert(pv.subrange(0, parts@.len() as int) =~= pv);
        Ok(manager)
    }

    /// Reads one `prefix:data` part into this manager.
    fn read_part_into(&mut self, part: &str) -> (r: Result<(), MacroError>)
        ensures
            match read_part(old(self)@, part@) {
                Ok(v) => r is Ok && final(self)@ == v,
                Err(m) => r matches Err(e) && e.message@ == m,
            },
    {
        let colon = match find_char(part, ':') {
            Some(k) => k,
            None => {
                proof { lemma_first_match(part@, |c: char| c == ':', part@.len() as int); }
                let mut msg = string_of("Invalid scope format in injection: '");
                msg.append(part);
                msg.append("'");
                return Err(MacroError::new(msg));
            },
        };
        proof { lemma_first_match(part@, |c: char| c == ':', colon as int); }
        let pn = part.unicode_len();
        let prefix = part.substring_char(0, colon);
        let data = part.substring_char(colon + 1, pn);
        if str_eq(prefix, "scopes") {
            let entries = split_char(data, ';');
            let ghost ev = entries.deep_view();
            let ghost v0 = self@;
            let mut j: usize = 0;
            assert(ev.subrange(0, 0) =~= Seq::<Seq<char>>::empty());
            assert(read_part(v0, part@) == read_entries(v0, ev));
            while j < entries.len()
                invariant
                    j <= entries@.len(),
                    read_part(v0, part@) == read_entries(v0, ev),
                    ev == entries.deep_view(),
                    ev == split_spec(data@, ';'),
                    v0 == old(self)@,
                    read_entries(v0, ev.subrange(0, j as int)) == Ok::<ScopeManagerView, Seq<char>>(self@),
                decreases entries@.len() - j,
            {
                proof {
                    assert(ev.subrange(0, j + 1).drop_last() =~= ev.subrange(0, j as int));
                    assert(ev[j as int] == entries@[j as int]@);
                    assert(ev.subrange(0, j + 1).last() == ev[j as int]);
                }
                let ghost w = self@;
                match self.read_entry_into(entries[j].as_str()) {
                    Ok(()) => {},
                    Err(e) => {
                        assert(read_entry(w, ev[j as int]) == Err::<ScopeManagerView, Seq<char>>(e.message@));
                        assert(read_entries(v0, ev.subrange(0, j + 1)) == Err::<ScopeManagerView, Seq<char>>(e.message@));
                        proof { lemma_read_entries_err_extends(v0, ev, j + 1); }
                        assert(read_entries(v0, ev) == Err::<ScopeManagerView, Seq<char>>(e.message@));
                        return Err(e);
                    },
                }
                j = j + 1;
            }
            assert(ev.subrange(0, entries@.len() as int) =~= ev);
            Ok(())
        } else if str_eq(prefix, "ignore") {
            let items = split_char(data, ',');
            let ghost iv = items.deep_view();
            let ghost v0 = self@;
            let mut j: usize = 0;
            assert(iv.subrange(0, 0) =~= Seq::<Seq<char>>::empty());
            while j < items.len()
                invariant
                    j <= items@.len(),
                    iv == items.deep_view(),
                    iv == split_spec(data@, ','),
                    v0 == old(self)@,
                    read_ignored(v0, iv.subrange(0, j as int)) == self@,
                decreases items@.len() - j,
            {
                proof {
                    assert(iv.subrange(0, j + 1).drop_last() =~= iv.subrange(0, j as int));
                    assert(iv[j as int] == items@[j as int]@);
                    assert(iv.subrange(0, j + 1).last() == iv[j as int]);
                }
                let item = items[j].as_str();
                let t = trim_range(item, 0, item.unicode_len());
                proof {
                    assert(item@.subrange(0, item@.len() as int) =~= item@);
                }
                if t.unicode_len() > 0 {
                    self.add_ignored_scope(string_of(t));
                }
                j = j + 1;
            }
            assert(iv.subrange(0, items@.len() as int) =~= iv);
            Ok(())
        } else {
            let mut msg = string_of("Invalid scope prefix in injection: '");
            msg.append(prefix);
            msg.append("'");
            Err(MacroError::new(msg))
        }
    }
}

} // verus!
