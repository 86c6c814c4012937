//! Filter conditions: operators, bound values, and lists of filters.
use vstd::prelude::*;
use crate::text::string_of;

verus! {

/// Comparison applied by one filter.
#[derive(Debug, Clone, Copy, PartialEq, Eq, Structural)]
pub enum FilterOperator {
    Eq,
    Ne,
    Gt,
    Lt,
    Gte,
    Lte,
    /// LIKE with `%` and `_` in the value escaped, safe for user input.
    Like,
    /// Case-insensitive LIKE, escaped like `Like`.
    ILike,
    /// LIKE that keeps `%` and `_` as wildcards; for controlled input only.
    UnsafeLike,
    In,
    NotIn,
    IsNull,
    IsNotNull,
    Between,
    /// Substring match: the value, its own `%` and `_` escaped, is wrapped in
    /// `%` wildcards.
    Contains,
}

/// A value bound to a query placeholder.
///
/// Floating-point values are carried as their IEEE-754 bit pattern
/// (`f64::to_bits`); the library never computes with them.
#[derive(Debug, PartialEq)]
pub enum FilterValue {
    String(String),
    Int(i64),
    UInt(u64),
    Float(u64),
    Bool(bool),
    Array(Vec<FilterValue>),
    Blob(Vec<u8>),
    Null,
}

/// The abstract content of a bound value.
pub enum FilterValueView {
    String(Seq<char>),
    Int(i64),
    UInt(u64),
    Float(u64),
    Bool(bool),
    Array(Seq<FilterValueView>),
    Blob(Seq<u8>),
    Null,
}

impl View for FilterValue {
    type V = FilterValueView;

    open spec fn view(&self) -> FilterValueView {
        self.value_view()
    }
}

impl FilterValue {
    /// The abstract content of this value.
    pub open spec fn value_view(&self) -> FilterValueView
        decreases self,
    {
        match self {
            FilterValue::String(s) => FilterValueView::String(s@),
            FilterValue::Int(i) => FilterValueView::Int(*i),
            FilterValue::UInt(u) => FilterValueView::UInt(*u),
            FilterValue::Float(f) => FilterValueView::Float(*f),
            FilterValue::Bool(b) => FilterValueView::Bool(*b),
            FilterValue::Array(items) => FilterValueView::Array(
                Seq::new(
                    items@.len(),
                    |i: int|
                        if 0 <= i < items@.len() {
                            items@[i].value_view()
                        } else {
                            FilterValueView::Null
                        },
                ),
            ),
            FilterValue::Blob(b) => FilterValueView::Blob(b@),
            FilterValue::Null => FilterValueView::Null,
        }
    }
}

/// The abstract contents of a list of values.
pub open spec fn values_view(values: Seq<FilterValue>) -> Seq<FilterValueView> {
    values.map_values(|v: FilterValue| v@)
}

impl FilterValue {
    /// An exact copy.
    pub fn copy(&self) -> (r: Self)
        ensures
            r@ == self@,
        decreases self,
    {
        match self {
            FilterValue::String(s) => FilterValue::String(s.clone()),
            FilterValue::Int(i) => FilterValue::Int(*i),
            FilterValue::UInt(u) => FilterValue::UInt(*u),
            FilterValue::Float(f) => FilterValue::Float(*f),
            FilterValue::Bool(b) => FilterValue::Bool(*b),
            FilterValue::Array(items) => {
                let mut out: Vec<FilterValue> = Vec::new();
                let mut i: usize = 0;
                while i < items.len()
                    invariant
                        i <= items@.len(),
                        out@.len() == i,
                        forall|j: int| 0 <= j < i ==> (#[trigger] out@[j])@ == items@[j]@,
                        *self == FilterValue::Array(*items),
                    decreases items@.len() - i,
                {
                    proof {
                        assert(decreases_to!(*self => self->Array_0));
                        assert(decreases_to!(self->Array_0 => self->Array_0@));
                        assert(decreases_to!(self->Array_0@ => self->Array_0@[i as int]));
                    }
                    let c = items[i].copy();
                    out.push(c);
                    i = i + 1;
                }
                let r = FilterValue::Array(out);
                proof {
                    let a = r@->Array_0;
                    let b = self@->Array_0;
                    assert forall|k: int| 0 <= k < a.len() implies a[k] == b[k] by {
                        assert(out@[k]@ == items@[k]@);
                    }
                    assert(a =~= b);
                }
                r
            },
            FilterValue::Blob(b) => {
                let c = b.clone();
                assert(c@ =~= b@);
                FilterValue::Blob(c)
            },
            FilterValue::Null => FilterValue::Null,
        }
    }

    /// A string value.
    pub fn text(s: &str) -> (r: Self)
        ensures
            r matches FilterValue::String(t) && t@ == s@,
    {
        FilterValue::String(string_of(s))
    }
}

/// Copies of a list of values.
pub fn copy_values(values: &Vec<FilterValue>) -> (r: Vec<FilterValue>)
    ensures
        values_view(r@) == values_view(values@),
{
    let mut out: Vec<FilterValue> = Vec::new();
    let mut i: usize = 0;
    while i < values.len()
        invariant
            i <= values@.len(),
            out@.len() == i,
            forall|j: int| 0 <= j < i ==> (#[trigger] out@[j])@ == values@[j]@,
        decreases values@.len() - i,
    {
        out.push(values[i].copy());
        i = i + 1;
    }
    assert(values_view(out@) =~= values_view(values@));
    out
}

impl From<String> for FilterValue {
    fn from(value: String) -> (r: Self) {
        FilterValue::String(value)
    }
}

impl vstd::std_specs::convert::FromSpecImpl<String> for FilterValue {
    open spec fn obeys_from_spec() -> bool {
        true
    }

    open spec fn from_spec(v: String) -> Self {
        FilterValue::String(v)
    }
}

impl From<i64> for FilterValue {
    fn from(value: i64) -> (r: Self) {
        FilterValue::Int(value)
    }
}

impl vstd::std_specs::convert::FromSpecImpl<i64> for FilterValue {
    open spec fn obeys_from_spec() -> bool {
        true
    }

    open spec fn from_spec(v: i64) -> Self {
        FilterValue::Int(v)
    }
}

impl From<i32> for FilterValue {
    fn from(value: i32) -> (r: Self) {
        FilterValue::Int(value as i64)
    }
}

impl vstd::std_specs::convert::FromSpecImpl<i32> for FilterValue {
    open spec fn obeys_from_spec() -> bool {
        true
    }

    open spec fn from_spec(v: i32) -> Self {
        FilterValue::Int(v as i64)
    }
}

impl From<u32> for FilterValue {
    fn from(value: u32) -> (r: Self) {
        FilterValue::UInt(value as u64)
    }
}

impl vstd::std_specs::convert::FromSpecImpl<u32> for FilterValue {
    open spec fn obeys_from_spec() -> bool {
        true
    }

    open spec fn from_spec(v: u32) -> Self {
        FilterValue::UInt(v as u64)
    }
}

impl From<u64> for FilterValue {
    fn from(value: u64) -> (r: Self) {
        FilterValue::UInt(value)
    }
}

impl vstd::std_specs::convert::FromSpecImpl<u64> for FilterValue {
    open spec fn obeys_from_spec() -> bool {
        true
    }

    open spec fn from_spec(v: u64) -> Self {
        FilterValue::UInt(v)
    }
}

impl From<bool> for FilterValue {
    fn from(value: bool) -> (r: Self) {
        FilterValue::Bool(value)
    }
}

impl vstd::std_specs::convert::FromSpecImpl<bool> for FilterValue {
    open spec fn obeys_from_spec() -> bool {
        true
    }

    open spec fn from_spec(v: bool) -> Self {
        FilterValue::Bool(v)
    }
}

impl From<Vec<FilterValue>> for FilterValue {
    fn from(values: Vec<FilterValue>) -> (r: Self) {
        FilterValue::Array(values)
    }
}

impl vstd::std_specs::convert::FromSpecImpl<Vec<FilterValue>> for FilterValue {
    open spec fn obeys_from_spec() -> bool {
        true
    }

    open spec fn from_spec(v: Vec<FilterValue>) -> Self {
        FilterValue::Array(v)
    }
}

impl From<Option<FilterValue>> for FilterValue {
    fn from(value: Option<FilterValue>) -> (r: Self) {
        match value {
            Some(v) => v,
            None => FilterValue::Null,
        }
    }
}

impl vstd::std_specs::convert::FromSpecImpl<Option<FilterValue>> for FilterValue {
    open spec fn obeys_from_spec() -> bool {
        true
    }

    open spec fn from_spec(v: Option<FilterValue>) -> Self {
        match v {
            Some(x) => x,
            None => FilterValue::Null,
        }
    }
}

/// One filter condition on a column.
#[derive(Debug, PartialEq)]
pub struct Filter {
    pub field: String,
    pub operator: FilterOperator,
    pub value: FilterValue,
    /// Negates the condition (NOT LIKE, NOT IN, NOT BETWEEN, ...).
    pub not: bool,
}

impl Filter {
    /// A non-negated filter.
    pub fn new(field: &str, operator: FilterOperator, value: FilterValue) -> (r: Self)
        ensures
            r.field@ == field@,
            r.operator == operator,
            r.value@ == value@,
            !r.not,
    {
        Filter { field: string_of(field), operator, value, not: false }
    }
}

/// An ordered list of filters, combined with AND.
#[derive(Debug, PartialEq)]
pub struct FilterParams {
    pub filters: Vec<Filter>,
}

impl Default for FilterParams {
    fn default() -> (r: Self)
        ensures
            r.filters@ == Seq::<Filter>::empty(),
    {
        FilterParams { filters: Vec::new() }
    }
}

} // verus!
