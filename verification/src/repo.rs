//! The decisions of `#[repo]` on a repository trait: its `instrument`
//! argument, and what each of its query methods is given to carry (the
//! trait's scopes less those the method ignores, and the instrument flag).
use vstd::prelude::*;
use crate::dml::ArgTarget;
use crate::error::MacroError;
use crate::scope::{ScopeManager, ScopeManagerView, active_spec, serialize_spec};
use crate::scope_attrs::from_attributes_spec;
use crate::text::{str_eq, string_of};

verus! {

/// The value of `key = value` among the arguments of `#[repo(..)]`.
#[derive(Debug)]
pub enum RepoArgValue {
    /// A boolean literal.
    Bool(bool),
    /// Another literal.
    OtherLit,
    /// Not a literal.
    NotLit,
}

/// One argument of `#[repo(..)]`.
#[derive(Debug)]
pub enum RepoArg {
    /// `key = value`.
    Assign(ArgTarget, RepoArgValue),
    /// Any other expression.
    Other,
}

/// What one argument decides, if anything: a `key = value` whose key is not
/// a path is refused; `instrument = value` gives the flag, or an error for
/// a value that is not a boolean literal; the rest is passed over.
pub open spec fn instrument_decision(a: RepoArg) -> Option<Result<bool, Seq<char>>> {
    match a {
        RepoArg::Assign(ArgTarget::NotPath, _) => Some(Err("Invalid parameter name"@)),
        RepoArg::Assign(ArgTarget::Ident(k), v) => if k@ == "instrument"@ {
            Some(
                match v {
                    RepoArgValue::Bool(b) => Ok(b),
                    RepoArgValue::OtherLit => Err("instrument parameter must be true or false"@),
                    RepoArgValue::NotLit => Err("instrument parameter must be a boolean literal"@),
                },
            )
        } else {
            None
        },
        _ => None,
    }
}

/// The `instrument` flag of `#[repo(..)]`: what the first deciding
/// argument decides; `false` when none does.
pub open spec fn instrument_spec(args: Seq<RepoArg>) -> Result<bool, Seq<char>>
    decreases args.len(),
{
    if args.len() == 0 {
        Ok(false)
    } else {
        match instrument_decision(args[0]) {
            Some(r) => r,
            None => instrument_spec(args.drop_first()),
        }
    }
}

/// What a query method of the repository is given to carry: the text form
/// of its scopes when some is active, and whether the trait asks for
/// instrumentation.
#[derive(Debug)]
pub struct MethodInjection {
    pub scope_data: Option<String>,
    pub trait_instrument: bool,
}

/// The trait's scopes with the names a method ignores added.
pub open spec fn with_ignored(v: ScopeManagerView, names: Seq<Seq<char>>) -> ScopeManagerView {
    ScopeManagerView { scopes: v.scopes, ignored: v.ignored + names }
}

/// The decisions of `#[repo]`.
pub struct RepoProcessor;

impl RepoProcessor {
    /// The `instrument` flag of `#[repo(..)]` (see `instrument_spec`).
    pub fn parse_instrument_flag(args: &Vec<RepoArg>) -> (r: Result<bool, MacroError>)
        ensures
            match instrument_spec(args@) {
                Ok(b) => r == Ok::<bool, MacroError>(b),
                Err(m) => (r matches Err(e) && e.message@ == m),
            },
    {
        let ghost all = args@;
        assert(all.subrange(0, all.len() as int) =~= all);
        let mut i: usize = 0;
        while i < args.len()
            invariant
                i <= all.len(),
                all == args@,
                instrument_spec(all) == instrument_spec(all.subrange(i as int, all.len() as int)),
            decreases all.len() - i,
        {
            proof {
                assert(all.subrange(i as int, all.len() as int).drop_first() =~= all.subrange(i + 1, all.len() as int));
                assert(all.subrange(i as int, all.len() as int)[0] == all[i as int]);
            }
            match &args[i] {
                RepoArg::Assign(ArgTarget::NotPath, _) => {
                    return Err(MacroError::new(string_of("Invalid parameter name")));
                },
                RepoArg::Assign(ArgTarget::Ident(k), v) => {
                    if str_eq(k.as_str(), "instrument") {
                        return match v {
                            RepoArgValue::Bool(b) => Ok(*b),
                            RepoArgValue::OtherLit => Err(
                                MacroError::new(string_of("instrument parameter must be true or false")),
                            ),
                            RepoArgValue::NotLit => Err(
                                MacroError::new(string_of("instrument parameter must be a boolean literal")),
                            ),
                        };
                    }
                },
                _ => {},
            }
            i = i + 1;
        }
        assert(all.subrange(i as int, all.len() as int) =~= Seq::<RepoArg>::empty());
        Ok(false)
    }

    /// What a query method carries: the trait's scopes, less the ones its
    /// `#[scope_ignore(..)]` attributes name (`ignore_attrs`, read as in
    /// `ScopeManager::parse_from_attributes`), in their text form when some
    /// scope stays active; and the trait's instrument flag.
    pub fn process_dml_method(trait_scopes: &ScopeManager, ignore_attrs: &Vec<Vec<Option<String>>>, trait_instrument: bool) -> (r:
        Result<MethodInjection, MacroError>)
        ensures
            match from_attributes_spec(Seq::empty(), ignore_attrs@) {
                Err(m) => (r matches Err(e) && e.message@ == m),
                Ok(method_view) => (r matches Ok(inj) && {
                    let merged = with_ignored(trait_scopes@, method_view.ignored);
                    &&& inj.trait_instrument == trait_instrument
                    &&& match inj.scope_data {
                        Some(s) => active_spec(merged).len() > 0 && s@ == serialize_spec(merged),
                        None => active_spec(merged).len() == 0,
                    }
                }),
            },
    {
        let no_scope_attrs: Vec<Vec<crate::scope_attrs::ScopeMeta>> = Vec::new();
        proof {
            assert(no_scope_attrs@ =~= Seq::<Vec<crate::scope_attrs::ScopeMeta>>::empty());
        }
        let method_scopes = match ScopeManager::parse_from_attributes(&no_scope_attrs, ignore_attrs) {
            Ok(m) => m,
            Err(e) => return Err(e),
        };
        let mut merged = trait_scopes.copy();
        let names = method_scopes.get_ignored_scope_names();
        let ghost start = merged@;
        let mut i: usize = 0;
        while i < names.len()
            invariant
                i <= names@.len(),
                start == trait_scopes@,
                merged@ == with_ignored(start, names.deep_view().subrange(0, i as int)),
            decreases names@.len() - i,
        {
            merged.add_ignored_scope(names[i].clone());
            assert(names.deep_view().subrange(0, i + 1) =~= names.deep_view().subrange(0, i as int).push(
                names@[i as int]@,
            ));
            assert(merged@.ignored =~= start.ignored + names.deep_view().subrange(0, i + 1));
            i = i + 1;
        }
        assert(names.deep_view().subrange(0, names@.len() as int) =~= names.deep_view());
        let scope_data = if merged.has_active_scopes() {
            Some(merged.serialize_for_injection())
        } else {
            None
        };
        Ok(MethodInjection { scope_data, trait_instrument })
    }
}

} // verus!
