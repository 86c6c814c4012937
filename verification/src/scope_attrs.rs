//! Reading scopes from the attributes of a repository and of its methods:
//! `#[scope(name = "sql", target = "...")]` declares a scope,
//! `#[scope_ignore(name, ..)]` makes a method ignore scopes. The items of
//! an attribute come in as plain values, one per item.
use vstd::prelude::*;
use crate::error::MacroError;
use crate::scope::{
    ScopeManager, ScopeManagerView, ScopeTarget, add_scope_spec, deserialize_spec, empty_manager,
    invalid_target_message, target_from_spec,
};
use crate::syntax::{first_match, lemma_first_match};
use crate::text::{str_eq, string_of};

verus! {

/// One item inside `#[scope(..)]`, as read.
#[derive(Debug)]
pub enum ScopeMeta {
    /// `key = "value"`.
    Pair(String, String),
    /// An item whose path is not a single identifier.
    NotIdent,
    /// An identifier that `=` does not follow.
    NoEquals,
    /// An item the attribute reader could not read (a value that is not a
    /// string literal, a missing comma); the reader's message.
    Unreadable(String),
}

/// What the items read so far give: the last scope name with its SQL, and
/// the target (`where` unless one was given).
pub type ScopeAttrState = (Option<(Seq<char>, Seq<char>)>, ScopeTarget);

/// Reading one more item of `#[scope(..)]`.
pub open spec fn scope_meta_step(st: ScopeAttrState, item: ScopeMeta) -> Result<ScopeAttrState, Seq<char>> {
    match item {
        ScopeMeta::NotIdent => Err("Expected a scope name or target"@),
        ScopeMeta::NoEquals => Err("Expected `key = \"value\"` format"@),
        ScopeMeta::Unreadable(m) => Err(m@),
        ScopeMeta::Pair(k, v) => if k@ == "target"@ {
            match target_from_spec(v@) {
                Some(t) => Ok((st.0, t)),
                None => Err(invalid_target_message(v@)),
            }
        } else {
            Ok((Some((k@, v@)), st.1))
        },
    }
}

/// Reading the items in order, stopping at the first error.
pub open spec fn scope_meta_spec(items: Seq<ScopeMeta>) -> Result<ScopeAttrState, Seq<char>>
    decreases items.len(),
{
    if items.len() == 0 {
        Ok((None, ScopeTarget::Where))
    } else {
        match scope_meta_spec(items.drop_last()) {
            Err(e) => Err(e),
            Ok(st) => scope_meta_step(st, items.last()),
        }
    }
}

/// An error for a prefix of the items is the error for all of them.
proof fn lemma_scope_meta_err_extends(items: Seq<ScopeMeta>, k: int)
    requires
        0 <= k <= items.len(),
        scope_meta_spec(items.subrange(0, k)) is Err,
    ensures
        scope_meta_spec(items) == scope_meta_spec(items.subrange(0, k)),
    decreases items.len() - k,
{
    if k < items.len() {
        assert(items.subrange(0, k + 1).drop_last() =~= items.subrange(0, k));
        lemma_scope_meta_err_extends(items, k + 1);
    } else {
        assert(items.subrange(0, k) =~= items);
    }
}

/// What `#[scope(..)]` with the items `items` does to the scopes `v`: the
/// named scope is added (see `add_scope_spec`), or the error.
pub open spec fn scope_attr_spec(v: ScopeManagerView, items: Seq<ScopeMeta>) -> Result<ScopeManagerView, Seq<char>> {
    match scope_meta_spec(items) {
        Err(e) => Err(e),
        Ok((None, _)) => Err("Scope name is required"@),
        Ok((Some((n, sql)), t)) => Ok(add_scope_spec(v, n, sql, t)),
    }
}

/// The names `#[scope_ignore(..)]` lists before its first item that is not
/// an identifier (`None`).
pub open spec fn ignore_prefix(items: Seq<Option<String>>) -> Seq<Seq<char>>
    decreases items.len(),
{
    if items.len() == 0 {
        Seq::empty()
    } else if items[0] is None {
        Seq::empty()
    } else {
        seq![items[0]->Some_0@] + ignore_prefix(items.drop_first())
    }
}

/// Whether every item of `#[scope_ignore(..)]` is an identifier.
pub open spec fn all_idents(items: Seq<Option<String>>) -> bool {
    forall|i: int| 0 <= i < items.len() ==> (#[trigger] items[i]) is Some
}

/// The error for an item of `#[scope_ignore(..)]` that is not an identifier.
pub open spec fn ignore_error_message() -> Seq<char> {
    "Expected scope name to ignore"@
}

/// What the scope attributes of a repository give, read in order from `v`.
pub open spec fn scope_attrs_spec(v: ScopeManagerView, attrs: Seq<Vec<ScopeMeta>>) -> Result<ScopeManagerView, Seq<char>>
    decreases attrs.len(),
{
    if attrs.len() == 0 {
        Ok(v)
    } else {
        match scope_attrs_spec(v, attrs.drop_last()) {
            Err(e) => Err(e),
            Ok(w) => scope_attr_spec(w, attrs.last()@),
        }
    }
}

/// What the ignore attributes of a method give, read in order from `v`.
pub open spec fn ignore_attrs_spec(v: ScopeManagerView, attrs: Seq<Vec<Option<String>>>) -> Result<ScopeManagerView, Seq<char>>
    decreases attrs.len(),
{
    if attrs.len() == 0 {
        Ok(v)
    } else {
        match ignore_attrs_spec(v, attrs.drop_last()) {
            Err(e) => Err(e),
            Ok(w) => if all_idents(attrs.last()@) {
                Ok(ScopeManagerView { scopes: w.scopes, ignored: w.ignored + ignore_prefix(attrs.last()@) })
            } else {
                Err(ignore_error_message())
            },
        }
    }
}

/// What a repository's scope attributes and a method's ignore attributes
/// give: the scopes declared, then the names ignored.
pub open spec fn from_attributes_spec(scope_attrs: Seq<Vec<ScopeMeta>>, ignore_attrs: Seq<Vec<Option<String>>>) -> Result<
    ScopeManagerView,
    Seq<char>,
> {
    match scope_attrs_spec(empty_manager(), scope_attrs) {
        Err(e) => Err(e),
        Ok(v) => ignore_attrs_spec(v, ignore_attrs),
    }
}

proof fn lemma_ignore_prefix_step(items: Seq<Option<String>>, i: int)
    requires
        0 <= i < items.len(),
        forall|j: int| 0 <= j <= i ==> (#[trigger] items[j]) is Some,
    ensures
        ignore_prefix(items.subrange(0, i + 1)) == ignore_prefix(items.subrange(0, i)).push(items[i]->Some_0@),
    decreases i,
{
    let a = items.subrange(0, i + 1);
    let b = items.subrange(0, i);
    if i == 0 {
        assert(a.drop_first() =~= Seq::<Option<String>>::empty());
        assert(b =~= Seq::<Option<String>>::empty());
        assert(ignore_prefix(Seq::<Option<String>>::empty()) == Seq::<Seq<char>>::empty());
        assert(ignore_prefix(a) =~= seq![items[0]->Some_0@]);
    } else {
        assert(a.drop_first() =~= items.drop_first().subrange(0, i));
        assert(b.drop_first() =~= items.drop_first().subrange(0, i - 1));
        assert forall|j: int| 0 <= j <= i - 1 implies (#[trigger] items.drop_first()[j]) is Some by {
            assert(items.drop_first()[j] == items[j + 1]);
        }
        lemma_ignore_prefix_step(items.drop_first(), i - 1);
        assert(items.drop_first()[i - 1] == items[i]);
        assert(ignore_prefix(a) =~= ignore_prefix(b).push(items[i]->Some_0@));
    }
}

proof fn lemma_ignore_prefix_stop(items: Seq<Option<String>>, i: int)
    requires
        0 <= i < items.len(),
        items[i] is None,
        forall|j: int| 0 <= j < i ==> (#[trigger] items[j]) is Some,
    ensures
        ignore_prefix(items) == ignore_prefix(items.subrange(0, i)),
    decreases i,
{
    if i == 0 {
        assert(items.subrange(0, 0) =~= Seq::<Option<String>>::empty());
    } else {
        assert(items.subrange(0, i).drop_first() =~= items.drop_first().subrange(0, i - 1));
        assert forall|j: int| 0 <= j < i - 1 implies (#[trigger] items.drop_first()[j]) is Some by {
            assert(items.drop_first()[j] == items[j + 1]);
        }
        assert(items.drop_first()[i - 1] == items[i]);
        lemma_ignore_prefix_stop(items.drop_first(), i - 1);
    }
}

impl ScopeManager {
    /// Reads one `#[scope(..)]` attribute and adds the scope it declares
    /// (see `scope_attr_spec`); on an error nothing is added.
    pub fn parse_scope_attribute(&mut self, items: &Vec<ScopeMeta>) -> (r: Result<(), MacroError>)
        ensures
            match scope_attr_spec(old(self)@, items@) {
                Ok(v) => r is Ok && final(self)@ == v,
                Err(m) => (r matches Err(e) && e.message@ == m) && final(self)@ == old(self)@,
            },
    {
        let ghost all = items@;
        let mut named: Option<(String, String)> = None;
        let mut target = ScopeTarget::Where;
        let mut i: usize = 0;
        while i < items.len()
            invariant
                i <= all.len(),
                all == items@,
                scope_meta_spec(all.subrange(0, i as int)) == Ok::<ScopeAttrState, Seq<char>>(
                    (
                        match named {
                            Some((n, s)) => Some((n@, s@)),
                            None => None,
                        },
                        target,
                    ),
                ),
            decreases all.len() - i,
        {
            proof {
                assert(all.subrange(0, i + 1).drop_last() =~= all.subrange(0, i as int));
            }
            match &items[i] {
                ScopeMeta::NotIdent => {
                    proof { lemma_scope_meta_err_extends(all, i + 1); }
                    return Err(MacroError::new(string_of("Expected a scope name or target")));
                },
                ScopeMeta::NoEquals => {
                    proof { lemma_scope_meta_err_extends(all, i + 1); }
                    return Err(MacroError::new(string_of("Expected `key = \"value\"` format")));
                },
                ScopeMeta::Unreadable(m) => {
                    proof { lemma_scope_meta_err_extends(all, i + 1); }
                    return Err(MacroError::new(m.clone()));
                },
                ScopeMeta::Pair(k, v) => {
                    if str_eq(k.as_str(), "target") {
                        match ScopeTarget::from_string(v.as_str()) {
                            Ok(t) => {
                                target = t;
                            },
                            Err(e) => {
                                proof { lemma_scope_meta_err_extends(all, i + 1); }
                                return Err(e);
                            },
                        }
                    } else {
                        named = Some((k.clone(), v.clone()));
                    }
                },
            }
            i = i + 1;
        }
        assert(all.subrange(0, all.len() as int) =~= all);
        match named {
            Some((n, s)) => {
                self.add_scope(n, s, target);
                Ok(())
            },
            None => Err(MacroError::new(string_of("Scope name is required"))),
        }
    }

    /// Reads one `#[scope_ignore(..)]` attribute: each item names a scope
    /// to ignore, in order; an item that is not an identifier (`None`)
    /// stops the reading with an error, the names before it being kept.
    pub fn parse_scope_ignore_attribute(&mut self, items: &Vec<Option<String>>) -> (r: Result<(), MacroError>)
        ensures
            final(self)@.scopes == old(self)@.scopes,
            final(self)@.ignored == old(self)@.ignored + ignore_prefix(items@),
            all_idents(items@) ==> r is Ok,
            !all_idents(items@) ==> (r matches Err(e) && e.message@ == ignore_error_message()),
    {
        let ghost all = items@;
        let ghost start = self@;
        let mut i: usize = 0;
        while i < items.len()
            invariant
                i <= all.len(),
                all == items@,
                forall|j: int| 0 <= j < i ==> (#[trigger] all[j]) is Some,
                start == old(self)@,
                self@.scopes == start.scopes,
                self@.ignored == start.ignored + ignore_prefix(all.subrange(0, i as int)),
            decreases all.len() - i,
        {
            match &items[i] {
                Some(name) => {
                    proof { lemma_ignore_prefix_step(all, i as int); }
                    let ghost before = self@.ignored;
                    self.add_ignored_scope(name.clone());
                    assert(self@.ignored =~= start.ignored + ignore_prefix(all.subrange(0, i + 1)));
                },
                None => {
                    proof { lemma_ignore_prefix_stop(all, i as int); }
                    return Err(MacroError::new(string_of("Expected scope name to ignore")));
                },
            }
            i = i + 1;
        }
        assert(all.subrange(0, all.len() as int) =~= all);
        Ok(())
    }

    /// The scopes the `#[scope(..)]` attributes of a repository declare,
    /// with the names the `#[scope_ignore(..)]` attributes of a method
    /// ignore (see `from_attributes_spec`).
    pub fn parse_from_attributes(scope_attrs: &Vec<Vec<ScopeMeta>>, ignore_attrs: &Vec<Vec<Option<String>>>) -> (r:
        Result<ScopeManager, MacroError>)
        ensures
            match from_attributes_spec(scope_attrs@, ignore_attrs@) {
                Ok(v) => (r matches Ok(m) && m@ == v),
                Err(msg) => (r matches Err(e) && e.message@ == msg),
            },
    {
        let mut manager = ScopeManager::new();
        let ghost sa = scope_attrs@;
        let mut i: usize = 0;
        while i < scope_attrs.len()
            invariant
                i <= sa.len(),
                sa == scope_attrs@,
                scope_attrs_spec(empty_manager(), sa.subrange(0, i as int)) == Ok::<ScopeManagerView, Seq<char>>(
                    manager@,
                ),
            decreases sa.len() - i,
        {
            proof {
                assert(sa.subrange(0, i + 1).drop_last() =~= sa.subrange(0, i as int));
            }
            match manager.parse_scope_attribute(&scope_attrs[i]) {
                Ok(()) => {},
                Err(e) => {
                    proof { lemma_scope_attrs_err_extends(empty_manager(), sa, i + 1); }
                    return Err(e);
                },
            }
            i = i + 1;
        }
        assert(sa.subrange(0, sa.len() as int) =~= sa);
        let ghost declared = manager@;
        let ghost ia = ignore_attrs@;
        let mut k: usize = 0;
        while k < ignore_attrs.len()
            invariant
                k <= ia.len(),
                ia == ignore_attrs@,
                sa == scope_attrs@,
                scope_attrs_spec(empty_manager(), sa) == Ok::<ScopeManagerView, Seq<char>>(declared),
                ignore_attrs_spec(declared, ia.subrange(0, k as int)) == Ok::<ScopeManagerView, Seq<char>>(manager@),
            decreases ia.len() - k,
        {
            proof {
                assert(ia.subrange(0, k + 1).drop_last() =~= ia.subrange(0, k as int));
            }
            let ghost before = manager@;
            match manager.parse_scope_ignore_attribute(&ignore_attrs[k]) {
                Ok(()) => {
                    assert(manager@ == ScopeManagerView {
                        scopes: before.scopes,
                        ignored: before.ignored + ignore_prefix(ia[k as int]@),
                    });
                },
                Err(e) => {
                    proof {
                        assert(ia.subrange(0, k + 1).last() == ia[k as int]);
                        assert(!all_idents(ia[k as int]@));
                        assert(ignore_attrs_spec(declared, ia.subrange(0, k + 1)) == Err::<ScopeManagerView, Seq<char>>(
                            ignore_error_message(),
                        ));
                        lemma_ignore_attrs_err_extends(declared, ia, k + 1);
                    }
                    return Err(e);
                },
            }
            k = k + 1;
        }
        assert(ia.subrange(0, ia.len() as int) =~= ia);
        Ok(manager)
    }
}

/// An error for a prefix of the scope attributes is the error for all.
proof fn lemma_scope_attrs_err_extends(v: ScopeManagerView, attrs: Seq<Vec<ScopeMeta>>, k: int)
    requires
        0 <= k <= attrs.len(),
        scope_attrs_spec(v, attrs.subrange(0, k)) is Err,
    ensures
        scope_attrs_spec(v, attrs) == scope_attrs_spec(v, attrs.subrange(0, k)),
    decreases attrs.len() - k,
{
    if k < attrs.len() {
        assert(attrs.subrange(0, k + 1).drop_last() =~= attrs.subrange(0, k));
        lemma_scope_attrs_err_extends(v, attrs, k + 1);
    } else {
        assert(attrs.subrange(0, k) =~= attrs);
    }
}

/// An error for a prefix of the ignore attributes is the error for all.
proof fn lemma_ignore_attrs_err_extends(v: ScopeManagerView, attrs: Seq<Vec<Option<String>>>, k: int)
    requires
        0 <= k <= attrs.len(),
        ignore_attrs_spec(v, attrs.subrange(0, k)) is Err,
    ensures
        ignore_attrs_spec(v, attrs) == ignore_attrs_spec(v, attrs.subrange(0, k)),
    decreases attrs.len() - k,
{
    if k < attrs.len() {
        assert(attrs.subrange(0, k + 1).drop_last() =~= attrs.subrange(0, k));
        lemma_ignore_attrs_err_extends(v, attrs, k + 1);
    } else {
        assert(attrs.subrange(0, k) =~= attrs);
    }
}

/// Whether a hidden scope attribute holds a string value.
pub open spec fn has_value(v: Option<String>) -> bool {
    v is Some
}

/// The scopes a method carries: its first hidden scope attribute with a
/// string value, read back (see `deserialize_spec`); none without one.
pub open spec fn carried_scopes_spec(values: Seq<Option<String>>) -> Result<ScopeManagerView, Seq<char>> {
    let k = first_match(values, |v: Option<String>| has_value(v));
    if k < values.len() {
        deserialize_spec(values[k as int]->Some_0@)
    } else {
        Ok(empty_manager())
    }
}

impl ScopeManager {
    /// The scopes a method carries (see `carried_scopes_spec`). `values`
    /// holds, for each hidden scope attribute of the method in order, its
    /// string value (`None` for an attribute of another form).
    pub fn extract_from_method_attributes(values: &Vec<Option<String>>) -> (r: Result<ScopeManager, MacroError>)
        ensures
            match carried_scopes_spec(values@) {
                Ok(v) => (r matches Ok(m) && m@ == v),
                Err(msg) => (r matches Err(e) && e.message@ == msg),
            },
    {
        let ghost vs = values@;
        let mut i: usize = 0;
        while i < values.len()
            invariant
                i <= vs.len(),
                vs == values@,
                forall|j: int| 0 <= j < i ==> !has_value(#[trigger] vs[j]),
            decreases vs.len() - i,
        {
            if let Some(s) = &values[i] {
                proof { lemma_first_match(vs, |v: Option<String>| has_value(v), i as int); }
                return ScopeManager::deserialize_from_injection(s.as_str());
            }
            i = i + 1;
        }
        proof { lemma_first_match(vs, |v: Option<String>| has_value(v), i as int); }
        Ok(ScopeManager::new())
    }
}

} // verus!
