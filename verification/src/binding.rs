//! The values handed to the database driver for the bound values of a
//! query: each filter value becomes the plain value the database's driver
//! is given for it. Arrays cannot be bound.
use vstd::prelude::*;
use crate::database::Database;
use crate::filter::{FilterValue, FilterValueView, values_view};
use crate::text::string_of;

verus! {

/// A value as the driver is given it. `Float` carries the IEEE-754 bit
/// pattern of an `f64`; `Null` is bound as a null integer.
#[derive(Debug, PartialEq)]
pub enum BoundArg {
    Text(String),
    Int(i64),
    UInt(u64),
    Float(u64),
    Bool(bool),
    Null,
    Blob(Vec<u8>),
}

/// The abstract content of a bound argument.
pub enum BoundArgView {
    Text(Seq<char>),
    Int(i64),
    UInt(u64),
    Float(u64),
    Bool(bool),
    Null,
    Blob(Seq<u8>),
}

impl View for BoundArg {
    type V = BoundArgView;

    open spec fn view(&self) -> BoundArgView {
        match self {
            BoundArg::Text(s) => BoundArgView::Text(s@),
            BoundArg::Int(i) => BoundArgView::Int(*i),
            BoundArg::UInt(u) => BoundArgView::UInt(*u),
            BoundArg::Float(f) => BoundArgView::Float(*f),
            BoundArg::Bool(b) => BoundArgView::Bool(*b),
            BoundArg::Null => BoundArgView::Null,
            BoundArg::Blob(b) => BoundArgView::Blob(b@),
        }
    }
}

/// What a value is bound as: unsigned integers as `i64` (wrapping) except
/// on MySQL; booleans as `0`/`1` except on PostgreSQL; arrays not at all.
pub open spec fn bound_arg_spec(v: FilterValueView, db: Database) -> Option<BoundArgView> {
    match v {
        FilterValueView::String(s) => Some(BoundArgView::Text(s)),
        FilterValueView::Int(i) => Some(BoundArgView::Int(i)),
        FilterValueView::UInt(u) => if db is MySql {
            Some(BoundArgView::UInt(u))
        } else {
            Some(BoundArgView::Int(u as i64))
        },
        FilterValueView::Float(f) => Some(BoundArgView::Float(f)),
        FilterValueView::Bool(b) => if db is Postgres {
            Some(BoundArgView::Bool(b))
        } else {
            Some(BoundArgView::Int(if b { 1 } else { 0 }))
        },
        FilterValueView::Null => Some(BoundArgView::Null),
        FilterValueView::Blob(b) => Some(BoundArgView::Blob(b)),
        FilterValueView::Array(_) => None,
    }
}

/// The message for an array among the bound values.
pub open spec fn array_binding_message() -> Seq<char> {
    "Array binding not supported"@
}

/// What one value is bound as (see `bound_arg_spec`).
pub fn bound_arg(v: &FilterValue, db: Database) -> (r: Option<BoundArg>)
    ensures
        match bound_arg_spec(v@, db) {
            Some(a) => (r matches Some(x) && x@ == a),
            None => r is None,
        },
{
    match v {
        FilterValue::String(s) => Some(BoundArg::Text(s.clone())),
        FilterValue::Int(i) => Some(BoundArg::Int(*i)),
        FilterValue::UInt(u) => match db {
            Database::MySql => Some(BoundArg::UInt(*u)),
            _ => Some(BoundArg::Int(*u as i64)),
        },
        FilterValue::Float(f) => Some(BoundArg::Float(*f)),
        FilterValue::Bool(b) => match db {
            Database::Postgres => Some(BoundArg::Bool(*b)),
            _ => Some(BoundArg::Int(if *b { 1 } else { 0 })),
        },
        FilterValue::Null => Some(BoundArg::Null),
        FilterValue::Blob(bytes) => Some(BoundArg::Blob(bytes.clone())),
        FilterValue::Array(_) => None,
    }
}

impl FilterValue {
    /// The arguments bound for `filters`, in order, or the error when one of
    /// them is an array.
    pub fn build_arguments(filters: &Vec<FilterValue>, db: Database) -> (r: Result<Vec<BoundArg>, String>)
        ensures
            (forall|i: int| 0 <= i < filters@.len() ==> bound_arg_spec(#[trigger] values_view(filters@)[i], db) is Some)
                ==> (r matches Ok(args) && args@.len() == filters@.len() && forall|i: int|
                0 <= i < args@.len() ==> Some((#[trigger] args@[i])@) == bound_arg_spec(values_view(filters@)[i], db)),
            (exists|i: int| 0 <= i < filters@.len() && bound_arg_spec(#[trigger] values_view(filters@)[i], db) is None)
                ==> (r matches Err(m) && m@ == array_binding_message()),
    {
        let mut args: Vec<BoundArg> = Vec::new();
        let mut i: usize = 0;
        while i < filters.len()
            invariant
                i <= filters@.len(),
                args@.len() == i,
                forall|j: int| 0 <= j < i ==> bound_arg_spec(#[trigger] values_view(filters@)[j], db) is Some,
                forall|j: int|
                    0 <= j < i ==> Some((#[trigger] args@[j])@) == bound_arg_spec(values_view(filters@)[j], db),
            decreases filters@.len() - i,
        {
            assert(values_view(filters@)[i as int] == filters@[i as int]@);
            match bound_arg(&filters[i], db) {
                Some(a) => args.push(a),
                None => return Err(string_of("Array binding not supported")),
            }
            i = i + 1;
        }
        Ok(args)
    }
}

} // verus!
