//! Fluent builders for `Params`: a root builder and one sub-builder per
//! concern (sorting, filtering, search, serial/slice/cursor pagination).
//! Sub-builders either stand alone (`build`) or return to their parent (`done`).
use vstd::prelude::*;
use core::marker::PhantomData;
use crate::cursor::{CursorDirection, CursorParams, CursorSecureExtract};
use crate::filter::{Filter, FilterOperator, FilterParams, FilterValue, FilterValueView};
use crate::params::{IntoParams, LimitParam, OffsetParam, Pagination, Params, SearchParams};
use crate::paging::{SerialParams, SliceParams, at_least_one, page_offset_spec};
use crate::sort::{SortDirection, NullOrdering, SortingParams, SortView, columns_view, with_last_nulls};
use crate::text::string_of;

verus! {

/// Types that own a `Params` a sub-builder can write into.
pub trait HasParams {
    /// The parameters currently held.
    spec fn params_spec(&self) -> Params;

    /// Mutable access to the parameters held.
    fn params_mut(&mut self) -> (r: &mut Params)
        ensures
            *r == old(self).params_spec(),
            final(self).params_spec() == *final(r),
    ;
}

/// Root builder of `Params`.
#[derive(Debug)]
pub struct ParamsBuilder {
    params: Params,
}

impl HasParams for ParamsBuilder {
    closed spec fn params_spec(&self) -> Params {
        self.params
    }

    fn params_mut(&mut self) -> (r: &mut Params) {
        &mut self.params
    }
}

impl Default for ParamsBuilder {
    fn default() -> (r: Self)
        ensures
            r.params_spec().is_empty_spec(),
    {
        Self::new()
    }
}

impl ParamsBuilder {
    /// A builder with nothing set.
    pub fn new() -> (r: Self)
        ensures
            r.params_spec().is_empty_spec(),
    {
        ParamsBuilder { params: Params::default() }
    }

    /// Starts a sort sub-builder that returns here.
    pub fn sort(self) -> (r: SortBuilder<Self, Safe>)
        ensures
            r.parent_spec() == Some(self),
            r.sorts_spec().entries().len() == 0,
            r.sorts_spec().allowed() is None,
    {
        SortBuilder::with_parent(self)
    }

    /// Starts a filter sub-builder that returns here.
    pub fn filter(self) -> (r: FilterBuilder<Self>)
        ensures
            r.parent_spec() == Some(self),
            r.filters_spec().filters@.len() == 0,
    {
        FilterBuilder::with_parent(self)
    }

    /// Starts a search sub-builder that returns here.
    pub fn search(self) -> (r: SearchBuilder<Self>)
        ensures
            r.parent_spec() == Some(self),
            r.search_spec().query@.len() == 0,
            r.search_spec().fields@.len() == 0,
    {
        SearchBuilder::with_parent(self)
    }

    /// Starts a serial pagination sub-builder that returns here.
    pub fn serial(self) -> (r: SerialBuilder<Self>)
        ensures
            r.parent_spec() == Some(self),
            r.serial_spec().page_spec() == 1 && r.serial_spec().size_spec() == 20,
    {
        SerialBuilder::with_parent(self)
    }

    /// Starts a slice pagination sub-builder that returns here.
    pub fn slice(self) -> (r: SliceBuilder<Self>)
        ensures
            r.parent_spec() == Some(self),
            r.slice_spec().page_spec() == 1 && r.slice_spec().size_spec() == 20,
            r.slice_spec().no_total_spec(),
    {
        SliceBuilder::with_parent(self)
    }

    /// Starts a cursor pagination sub-builder that returns here.
    pub fn cursor(self) -> (r: CursorBuilder<Self, Initial>)
        ensures
            r.parent_spec() == Some(self),
            r.cursor_spec().direction is None && r.cursor_spec().values@.len() == 0
                && r.cursor_spec().error is None,
    {
        CursorBuilder::with_parent(self)
    }

    /// Sets an explicit LIMIT.
    pub fn limit(self, limit: u32) -> (r: Self)
        ensures
            r.params_spec() == (Params { limit: Some(LimitParam(limit)), ..self.params_spec() }),
    {
        let mut b = self;
        b.params.limit = Some(LimitParam(limit));
        b
    }

    /// Sets an explicit OFFSET.
    pub fn offset(self, offset: u32) -> (r: Self)
        ensures
            r.params_spec() == (Params { offset: Some(OffsetParam(offset)), ..self.params_spec() }),
    {
        let mut b = self;
        b.params.offset = Some(OffsetParam(offset));
        b
    }

    /// The parameters built.
    pub fn build(self) -> (r: Params)
        ensures
            r == self.params_spec(),
    {
        self.params
    }
}

/// Sort builder state: only literal field names.
pub struct Safe;

/// Sort builder state: runtime field names checked against a whitelist.
pub struct Unsafe;

/// Builds sorting parameters; `S` tracks whether runtime field names are allowed.
pub struct SortBuilder<P = (), S = Safe> {
    parent: Option<P>,
    sorts: SortingParams,
    allowed_columns: Option<&'static [&'static str]>,
    _security: PhantomData<S>,
}

impl<P, S> SortBuilder<P, S> {
    /// The builder to return to, if any.
    pub closed spec fn parent_spec(&self) -> Option<P> {
        self.parent
    }

    /// The sorting parameters built so far.
    pub closed spec fn sorts_spec(&self) -> SortingParams {
        self.sorts
    }
}

impl SortBuilder<(), Safe> {
    /// A standalone builder (no parent).
    pub fn new() -> (r: Self)
        ensures
            r.parent_spec() is None,
            r.sorts_spec().entries().len() == 0,
            r.sorts_spec().allowed() is None,
    {
        SortBuilder { parent: None, sorts: SortingParams::new(), allowed_columns: None, _security: PhantomData }
    }

    /// The sorting parameters, or `None` when no entry was added.
    pub fn build(self) -> (r: Option<SortingParams>)
        ensures
            self.sorts_spec().entries().len() == 0 ==> r is None,
            self.sorts_spec().entries().len() > 0 ==> r == Some(self.sorts_spec()),
    {
        if self.sorts.is_empty() { None } else { Some(self.sorts) }
    }
}

impl SortBuilder<(), Unsafe> {
    /// The sorting parameters, or `None` when no entry was added.
    pub fn build(self) -> (r: Option<SortingParams>)
        ensures
            self.sorts_spec().entries().len() == 0 ==> r is None,
            self.sorts_spec().entries().len() > 0 ==> r == Some(self.sorts_spec()),
    {
        if self.sorts.is_empty() { None } else { Some(self.sorts) }
    }
}

/// `after` is `before` with one more entry appended.
pub open spec fn one_more_entry(before: Seq<SortView>, after: Seq<SortView>, e: SortView) -> bool {
    after.len() == before.len() + 1 && after.drop_last() == before && after.last() == e
}

impl<P> SortBuilder<P, Safe> {
    /// A builder that returns to `parent`.
    pub fn with_parent(parent: P) -> (r: Self)
        ensures
            r.parent_spec() == Some(parent),
            r.sorts_spec().entries().len() == 0,
            r.sorts_spec().allowed() is None,
    {
        SortBuilder {
            parent: Some(parent),
            sorts: SortingParams::new(),
            allowed_columns: None,
            _security: PhantomData,
        }
    }

    /// Appends an ascending entry on a literal column name.
    pub fn asc(self, field: &'static str) -> (r: Self)
        ensures
            r.parent_spec() == self.parent_spec(),
            one_more_entry(self.sorts_spec().entries(), r.sorts_spec().entries(), SortView {
                field: field@,
                direction: SortDirection::Asc,
                nulls: NullOrdering::Default,
                runtime: false,
            }),
            r.sorts_spec().allowed() == self.sorts_spec().allowed(),
    {
        let sorts = self.sorts.asc(field);
        SortBuilder { parent: self.parent, sorts, allowed_columns: self.allowed_columns, _security: PhantomData }
    }

    /// Appends a descending entry on a literal column name.
    pub fn desc(self, field: &'static str) -> (r: Self)
        ensures
            r.parent_spec() == self.parent_spec(),
            one_more_entry(self.sorts_spec().entries(), r.sorts_spec().entries(), SortView {
                field: field@,
                direction: SortDirection::Desc,
                nulls: NullOrdering::Default,
                runtime: false,
            }),
            r.sorts_spec().allowed() == self.sorts_spec().allowed(),
    {
        let sorts = self.sorts.desc(field);
        SortBuilder { parent: self.parent, sorts, allowed_columns: self.allowed_columns, _security: PhantomData }
    }

    /// Switches to runtime field names, checked later against `allowed_columns`.
    pub fn with_allowed_columns(self, allowed_columns: &'static [&'static str]) -> (r: SortBuilder<
        P,
        Unsafe,
    >)
        ensures
            r.parent_spec() == self.parent_spec(),
            r.sorts_spec().entries() == self.sorts_spec().entries(),
            r.sorts_spec().allowed() == Some(columns_view(allowed_columns@)),
    {
        SortBuilder {
            parent: self.parent,
            sorts: self.sorts.with_allowed_columns(allowed_columns),
            allowed_columns: Some(allowed_columns),
            _security: PhantomData,
        }
    }
}

impl<P> SortBuilder<P, Unsafe> {
    /// Appends an ascending entry on a runtime column name (validated later).
    pub fn asc_unsafe(self, field: &str) -> (r: Self)
        ensures
            r.parent_spec() == self.parent_spec(),
            r.sorts_spec().entries() == self.sorts_spec().entries().push(SortView {
                field: field@,
                direction: SortDirection::Asc,
                nulls: NullOrdering::Default,
                runtime: true,
            }),
            r.sorts_spec().allowed() == self.sorts_spec().allowed(),
    {
        let sort = crate::sort::Sort::asc_unsafe(field);
        let sorts = self.sorts.push(sort);
        SortBuilder { parent: self.parent, sorts, allowed_columns: self.allowed_columns, _security: PhantomData }
    }

    /// Appends a descending entry on a runtime column name (validated later).
    pub fn desc_unsafe(self, field: &str) -> (r: Self)
        ensures
            r.parent_spec() == self.parent_spec(),
            r.sorts_spec().entries() == self.sorts_spec().entries().push(SortView {
                field: field@,
                direction: SortDirection::Desc,
                nulls: NullOrdering::Default,
                runtime: true,
            }),
            r.sorts_spec().allowed() == self.sorts_spec().allowed(),
    {
        let sort = crate::sort::Sort::desc_unsafe(field);
        let sorts = self.sorts.push(sort);
        SortBuilder { parent: self.parent, sorts, allowed_columns: self.allowed_columns, _security: PhantomData }
    }
}

/// `b` equals `a` except possibly for the sorting.
pub open spec fn same_except_sort(a: Params, b: Params) -> bool {
    a.filters == b.filters && a.search == b.search && a.limit == b.limit && a.offset == b.offset
        && a.pagination == b.pagination
}

impl<P, S> SortBuilder<P, S> {
    /// Puts NULLs first in the last added entry.
    pub fn nulls_first(self) -> (r: Self)
        ensures
            r.parent_spec() == self.parent_spec(),
            r.sorts_spec().entries() == with_last_nulls(self.sorts_spec().entries(), NullOrdering::First),
            r.sorts_spec().allowed() == self.sorts_spec().allowed(),
    {
        let sorts = self.sorts.apply_nulls_first();
        SortBuilder { parent: self.parent, sorts, allowed_columns: self.allowed_columns, _security: PhantomData }
    }

    /// Puts NULLs last in the last added entry.
    pub fn nulls_last(self) -> (r: Self)
        ensures
            r.parent_spec() == self.parent_spec(),
            r.sorts_spec().entries() == with_last_nulls(self.sorts_spec().entries(), NullOrdering::Last),
            r.sorts_spec().allowed() == self.sorts_spec().allowed(),
    {
        let sorts = self.sorts.apply_nulls_last();
        SortBuilder { parent: self.parent, sorts, allowed_columns: self.allowed_columns, _security: PhantomData }
    }

    /// Restores the default null placement of the last added entry.
    pub fn nulls_default(self) -> (r: Self)
        ensures
            r.parent_spec() == self.parent_spec(),
            r.sorts_spec().entries() == with_last_nulls(self.sorts_spec().entries(), NullOrdering::Default),
            r.sorts_spec().allowed() == self.sorts_spec().allowed(),
    {
        let sorts = self.sorts.apply_nulls_default();
        SortBuilder { parent: self.parent, sorts, allowed_columns: self.allowed_columns, _security: PhantomData }
    }

    /// Returns to the parent, appending the entries (if any) to its sorting.
    pub fn done(self) -> (r: P)
        where P: HasParams,
        requires
            self.parent_spec() is Some,
        ensures
            same_except_sort(r.params_spec(), self.parent_spec()->0.params_spec()),
            self.sorts_spec().entries().len() == 0 ==> r.params_spec().sort_by == self.parent_spec()->0.params_spec().sort_by,
            self.sorts_spec().entries().len() > 0 ==> (r.params_spec().sort_by matches Some(s)
                && s.entries() == (match self.parent_spec()->0.params_spec().sort_by {
                    Some(old) => old.entries(),
                    None => Seq::empty(),
                }) + self.sorts_spec().entries() && s.allowed() == (match self.parent_spec()->0.params_spec().sort_by {
                    Some(old) => if old.allowed() is Some {
                        old.allowed()
                    } else {
                        self.sorts_spec().allowed()
                    },
                    None => self.sorts_spec().allowed(),
                })),
    {
        let mut parent = self.parent.unwrap();
        if !self.sorts.is_empty() {
            let p = parent.params_mut();
            let existing = p.sort_by.take();
            match existing {
                Some(e) => {
                    p.sort_by = Some(e.extend_with(self.sorts));
                },
                None => {
                    p.sort_by = Some(self.sorts);
                    assert(Seq::<SortView>::empty() + self.sorts.entries() =~= self.sorts.entries());
                },
            }
        }
        parent
    }
}

/// Builds a list of filters.
pub struct FilterBuilder<P = ()> {
    parent: Option<P>,
    filters: FilterParams,
}

impl<P> FilterBuilder<P> {
    /// The builder to return to, if any.
    pub closed spec fn parent_spec(&self) -> Option<P> {
        self.parent
    }

    /// The filters built so far.
    pub closed spec fn filters_spec(&self) -> FilterParams {
        self.filters
    }
}

impl FilterBuilder<()> {
    /// A standalone builder (no parent).
    pub fn new() -> (r: Self)
        ensures
            r.parent_spec() is None,
            r.filters_spec().filters@.len() == 0,
    {
        FilterBuilder { parent: None, filters: FilterParams::default() }
    }

    /// The filters built.
    pub fn build(self) -> (r: FilterParams)
        ensures
            r == self.filters_spec(),
    {
        self.filters
    }
}

/// `after` is `before` with one more, non-negated filter on `field` appended.
pub open spec fn one_more_filter(
    before: Seq<Filter>,
    after: Seq<Filter>,
    field: Seq<char>,
    op: FilterOperator,
    value: FilterValueView,
) -> bool {
    &&& after.len() == before.len() + 1
    &&& after.drop_last() == before
    &&& after.last().field@ == field
    &&& after.last().operator == op
    &&& after.last().value@ == value
    &&& !after.last().not
}

impl<P> FilterBuilder<P> {
    /// A builder that returns to `parent`.
    pub fn with_parent(parent: P) -> (r: Self)
        ensures
            r.parent_spec() == Some(parent),
            r.filters_spec().filters@.len() == 0,
    {
        FilterBuilder { parent: Some(parent), filters: FilterParams::default() }
    }

    fn push(self, field: &str, op: FilterOperator, value: FilterValue) -> (r: Self)
        ensures
            r.parent_spec() == self.parent_spec(),
            one_more_filter(self.filters_spec().filters@, r.filters_spec().filters@, field@, op, value@),
    {
        let mut filters = self.filters;
        let ghost before = filters.filters@;
        filters.filters.push(Filter::new(field, op, value));
        assert(filters.filters@.drop_last() =~= before);
        FilterBuilder { parent: self.parent, filters }
    }

    /// `field = value`.
    pub fn eq(self, field: &str, value: FilterValue) -> (r: Self)
        ensures
            r.parent_spec() == self.parent_spec(),
            one_more_filter(self.filters_spec().filters@, r.filters_spec().filters@, field@, FilterOperator::Eq, value@),
    {
        self.push(field, FilterOperator::Eq, value)
    }

    /// `field <> value`.
    pub fn ne(self, field: &str, value: FilterValue) -> (r: Self)
        ensures
            r.parent_spec() == self.parent_spec(),
            one_more_filter(self.filters_spec().filters@, r.filters_spec().filters@, field@, FilterOperator::Ne, value@),
    {
        self.push(field, FilterOperator::Ne, value)
    }

    /// `field > value`.
    pub fn gt(self, field: &str, value: FilterValue) -> (r: Self)
        ensures
            r.parent_spec() == self.parent_spec(),
            one_more_filter(self.filters_spec().filters@, r.filters_spec().filters@, field@, FilterOperator::Gt, value@),
    {
        self.push(field, FilterOperator::Gt, value)
    }

    /// `field < value`.
    pub fn lt(self, field: &str, value: FilterValue) -> (r: Self)
        ensures
            r.parent_spec() == self.parent_spec(),
            one_more_filter(self.filters_spec().filters@, r.filters_spec().filters@, field@, FilterOperator::Lt, value@),
    {
        self.push(field, FilterOperator::Lt, value)
    }

    /// `field >= value`.
    pub fn gte(self, field: &str, value: FilterValue) -> (r: Self)
        ensures
            r.parent_spec() == self.parent_spec(),
            one_more_filter(self.filters_spec().filters@, r.filters_spec().filters@, field@, FilterOperator::Gte, value@),
    {
        self.push(field, FilterOperator::Gte, value)
    }

    /// `field <= value`.
    pub fn lte(self, field: &str, value: FilterValue) -> (r: Self)
        ensures
            r.parent_spec() == self.parent_spec(),
            one_more_filter(self.filters_spec().filters@, r.filters_spec().filters@, field@, FilterOperator::Lte, value@),
    {
        self.push(field, FilterOperator::Lte, value)
    }

    /// Safe LIKE: `%` and `_` in `pat` are escaped when the query is built,
    /// so they match literally.
    pub fn like(self, field: &str, pat: &str) -> (r: Self)
        ensures
            r.parent_spec() == self.parent_spec(),
            one_more_filter(self.filters_spec().filters@, r.filters_spec().filters@, field@, FilterOperator::Like, FilterValueView::String(pat@)),
    {
        self.push(field, FilterOperator::Like, FilterValue::text(pat))
    }

    /// Case-insensitive safe LIKE.
    pub fn ilike(self, field: &str, pat: &str) -> (r: Self)
        ensures
            r.parent_spec() == self.parent_spec(),
            one_more_filter(self.filters_spec().filters@, r.filters_spec().filters@, field@, FilterOperator::ILike, FilterValueView::String(pat@)),
    {
        self.push(field, FilterOperator::ILike, FilterValue::text(pat))
    }

    /// LIKE with `%` and `_` kept as wildcards; for controlled input only.
    pub fn like_pattern(self, field: &str, pat: &str) -> (r: Self)
        ensures
            r.parent_spec() == self.parent_spec(),
            one_more_filter(self.filters_spec().filters@, r.filters_spec().filters@, field@, FilterOperator::UnsafeLike, FilterValueView::String(pat@)),
    {
        self.push(field, FilterOperator::UnsafeLike, FilterValue::text(pat))
    }

    /// `field IN (values...)`.
    pub fn is_in(self, field: &str, values: Vec<FilterValue>) -> (r: Self)
        ensures
            r.parent_spec() == self.parent_spec(),
            one_more_filter(self.filters_spec().filters@, r.filters_spec().filters@, field@, FilterOperator::In, FilterValue::Array(values)@),
    {
        self.push(field, FilterOperator::In, FilterValue::Array(values))
    }

    /// Same as `is_in`.
    pub fn in_values(self, field: &str, values: Vec<FilterValue>) -> (r: Self)
        ensures
            r.parent_spec() == self.parent_spec(),
            one_more_filter(self.filters_spec().filters@, r.filters_spec().filters@, field@, FilterOperator::In, FilterValue::Array(values)@),
    {
        self.is_in(field, values)
    }

    /// `field NOT IN (values...)`.
    pub fn not_in(self, field: &str, values: Vec<FilterValue>) -> (r: Self)
        ensures
            r.parent_spec() == self.parent_spec(),
            one_more_filter(self.filters_spec().filters@, r.filters_spec().filters@, field@, FilterOperator::NotIn, FilterValue::Array(values)@),
    {
        self.push(field, FilterOperator::NotIn, FilterValue::Array(values))
    }

    /// `field BETWEEN min AND max`.
    pub fn between(self, field: &str, min: FilterValue, max: FilterValue) -> (r: Self)
        ensures
            r.parent_spec() == self.parent_spec(),
            one_more_filter(self.filters_spec().filters@, r.filters_spec().filters@, field@, FilterOperator::Between, FilterValueView::Array(seq![min@, max@])),
    {
        let ghost mv = min@;
        let ghost xv = max@;
        let pair = vec![min, max];
        let v = FilterValue::Array(pair);
        assert(v@ == FilterValueView::Array(seq![mv, xv])) by {
            assert(v@->Array_0 =~= seq![mv, xv]);
        }
        self.push(field, FilterOperator::Between, v)
    }

    /// `field IS NULL`.
    pub fn is_null(self, field: &str) -> (r: Self)
        ensures
            r.parent_spec() == self.parent_spec(),
            one_more_filter(self.filters_spec().filters@, r.filters_spec().filters@, field@, FilterOperator::IsNull, FilterValueView::Null),
    {
        self.push(field, FilterOperator::IsNull, FilterValue::Null)
    }

    /// `field IS NOT NULL`.
    pub fn is_not_null(self, field: &str) -> (r: Self)
        ensures
            r.parent_spec() == self.parent_spec(),
            one_more_filter(self.filters_spec().filters@, r.filters_spec().filters@, field@, FilterOperator::IsNotNull, FilterValueView::Null),
    {
        self.push(field, FilterOperator::IsNotNull, FilterValue::Null)
    }

    /// Substring match on `field`.
    pub fn contains(self, field: &str, value: FilterValue) -> (r: Self)
        ensures
            r.parent_spec() == self.parent_spec(),
            one_more_filter(self.filters_spec().filters@, r.filters_spec().filters@, field@, FilterOperator::Contains, value@),
    {
        self.push(field, FilterOperator::Contains, value)
    }

    /// Negates the last added filter (no change when there is none).
    pub fn not(self) -> (r: Self)
        ensures
            r.parent_spec() == self.parent_spec(),
            r.filters_spec().filters@.len() == self.filters_spec().filters@.len(),
            self.filters_spec().filters@.len() > 0 ==> r.filters_spec().filters@ == self.filters_spec().filters@.update(
                self.filters_spec().filters@.len() - 1,
                Filter { not: true, ..self.filters_spec().filters@.last() },
            ),
            self.filters_spec().filters@.len() == 0 ==> r.filters_spec().filters@ == self.filters_spec().filters@,
    {
        let mut filters = self.filters;
        let ghost before = filters.filters@;
        if filters.filters.len() > 0 {
            let mut last = filters.filters.pop().unwrap();
            last.not = true;
            filters.filters.push(last);
            assert(filters.filters@ =~= before.update(before.len() - 1, Filter { not: true, ..before.last() }));
        }
        FilterBuilder { parent: self.parent, filters }
    }

    /// Returns to the parent, appending the filters to its filter list.
    pub fn done(self) -> (r: P)
        where P: HasParams,
        requires
            self.parent_spec() is Some,
        ensures
            ({
                let old_p = self.parent_spec()->0.params_spec();
                let new_p = r.params_spec();
                &&& new_p.search == old_p.search && new_p.sort_by == old_p.sort_by
                &&& new_p.limit == old_p.limit && new_p.offset == old_p.offset
                &&& new_p.pagination == old_p.pagination
                &&& new_p.filters matches Some(f) && f.filters@ == (match old_p.filters {
                    Some(of) => of.filters@,
                    None => Seq::empty(),
                }) + self.filters_spec().filters@
            }),
    {
        let mut parent = self.parent.unwrap();
        let mut added = self.filters;
        let p = parent.params_mut();
        let existing = p.filters.take();
        match existing {
            Some(mut e) => {
                e.filters.append(&mut added.filters);
                p.filters = Some(e);
            },
            None => {
                assert(Seq::<Filter>::empty() + added.filters@ =~= added.filters@);
                p.filters = Some(added);
            },
        }
        parent
    }
}

/// Strings for each of `items`.
fn strings_of(items: &[&str]) -> (r: Vec<String>)
    ensures
        r@.len() == items@.len(),
        forall|i: int| 0 <= i < items@.len() ==> (#[trigger] r@[i])@ == items@[i]@,
{
    let mut out: Vec<String> = Vec::new();
    let mut i: usize = 0;
    while i < items.len()
        invariant
            i <= items@.len(),
            out@.len() == i,
            forall|j: int| 0 <= j < i ==> (#[trigger] out@[j])@ == items@[j]@,
        decreases items@.len() - i,
    {
        out.push(string_of(items[i]));
        i = i + 1;
    }
    out
}

/// Builds search parameters.
pub struct SearchBuilder<P = ()> {
    parent: Option<P>,
    search: SearchParams,
}

impl<P> SearchBuilder<P> {
    /// The builder to return to, if any.
    pub closed spec fn parent_spec(&self) -> Option<P> {
        self.parent
    }

    /// The search built so far.
    pub closed spec fn search_spec(&self) -> SearchParams {
        self.search
    }
}

impl SearchBuilder<()> {
    /// A standalone builder with an empty query and no fields.
    pub fn new() -> (r: Self)
        ensures
            r.parent_spec() is None,
            r.search_spec().query@.len() == 0,
            r.search_spec().fields@.len() == 0,
            !r.search_spec().case_sensitive && !r.search_spec().exact_match,
    {
        proof { reveal_strlit(""); }
        SearchBuilder { parent: None, search: SearchParams::new("", Vec::new()) }
    }

    /// The search built.
    pub fn build(self) -> (r: SearchParams)
        ensures
            r == self.search_spec(),
    {
        self.search
    }
}

impl<P> SearchBuilder<P> {
    /// A builder that returns to `parent`.
    pub fn with_parent(parent: P) -> (r: Self)
        ensures
            r.parent_spec() == Some(parent),
            r.search_spec().query@.len() == 0,
            r.search_spec().fields@.len() == 0,
            !r.search_spec().case_sensitive && !r.search_spec().exact_match,
    {
        proof { reveal_strlit(""); }
        SearchBuilder { parent: Some(parent), search: SearchParams::new("", Vec::new()) }
    }

    /// Sets the search text.
    pub fn query(self, q: &str) -> (r: Self)
        ensures
            r.parent_spec() == self.parent_spec(),
            r.search_spec().query@ == q@,
            r.search_spec().fields == self.search_spec().fields,
            r.search_spec().case_sensitive == self.search_spec().case_sensitive,
            r.search_spec().exact_match == self.search_spec().exact_match,
    {
        let mut s = self.search;
        s.query = string_of(q);
        SearchBuilder { parent: self.parent, search: s }
    }

    /// Sets the search text and the columns searched.
    pub fn search(self, query: &str, fields: &[&str]) -> (r: Self)
        ensures
            r.parent_spec() == self.parent_spec(),
            r.search_spec().query@ == query@,
            r.search_spec().fields@.len() == fields@.len(),
            forall|i: int| 0 <= i < fields@.len() ==> (#[trigger] r.search_spec().fields@[i])@ == fields@[i]@,
            r.search_spec().case_sensitive == self.search_spec().case_sensitive,
            r.search_spec().exact_match == self.search_spec().exact_match,
    {
        let mut s = self.search;
        s.query = string_of(query);
        s.fields = strings_of(fields);
        SearchBuilder { parent: self.parent, search: s }
    }

    /// Sets the columns searched.
    pub fn fields(self, fields: &[&str]) -> (r: Self)
        ensures
            r.parent_spec() == self.parent_spec(),
            r.search_spec().query == self.search_spec().query,
            r.search_spec().fields@.len() == fields@.len(),
            forall|i: int| 0 <= i < fields@.len() ==> (#[trigger] r.search_spec().fields@[i])@ == fields@[i]@,
            r.search_spec().case_sensitive == self.search_spec().case_sensitive,
            r.search_spec().exact_match == self.search_spec().exact_match,
    {
        let mut s = self.search;
        s.fields = strings_of(fields);
        SearchBuilder { parent: self.parent, search: s }
    }

    /// Whole-value (`true`) or substring (`false`) matching.
    pub fn exact(self, yes: bool) -> (r: Self)
        ensures
            r.parent_spec() == self.parent_spec(),
            r.search_spec() == (SearchParams { exact_match: yes, ..self.search_spec() }),
    {
        SearchBuilder { parent: self.parent, search: self.search.with_exact_match(yes) }
    }

    /// Case-sensitive (`true`) or case-insensitive (`false`) matching.
    pub fn case_sensitive(self, yes: bool) -> (r: Self)
        ensures
            r.parent_spec() == self.parent_spec(),
            r.search_spec() == (SearchParams { case_sensitive: yes, ..self.search_spec() }),
    {
        SearchBuilder { parent: self.parent, search: self.search.with_case_sensitive(yes) }
    }

    /// Returns to the parent, setting its search unless the query is empty.
    pub fn done(self) -> (r: P)
        where P: HasParams,
        requires
            self.parent_spec() is Some,
        ensures
            self.search_spec().query@.len() == 0 ==> r.params_spec() == self.parent_spec()->0.params_spec(),
            self.search_spec().query@.len() > 0 ==> r.params_spec() == (Params {
                search: Some(self.search_spec()),
                ..self.parent_spec()->0.params_spec()
            }),
    {
        let mut parent = self.parent.unwrap();
        if self.search.query.as_str().unicode_len() > 0 {
            let p = parent.params_mut();
            p.search = Some(self.search);
        }
        parent
    }
}

/// Builds serial pagination.
pub struct SerialBuilder<P = ()> {
    parent: Option<P>,
    serial: SerialParams,
}

impl<P> SerialBuilder<P> {
    /// The builder to return to, if any.
    pub closed spec fn parent_spec(&self) -> Option<P> {
        self.parent
    }

    /// The pagination built so far.
    pub closed spec fn serial_spec(&self) -> SerialParams {
        self.serial
    }
}

impl SerialBuilder<()> {
    /// A standalone builder on page 1 of 20 rows.
    pub fn new() -> (r: Self)
        ensures
            r.parent_spec() is None,
            r.serial_spec().page_spec() == 1 && r.serial_spec().size_spec() == 20,
    {
        SerialBuilder { parent: None, serial: SerialParams::default() }
    }

    /// A standalone builder on `page` of `per_page` rows (zero raised to one).
    pub fn with_page(page: u32, per_page: u32) -> (r: Self)
        ensures
            r.parent_spec() is None,
            r.serial_spec().page_spec() == at_least_one(page),
            r.serial_spec().size_spec() == at_least_one(per_page),
    {
        SerialBuilder { parent: None, serial: SerialParams::new(page, per_page) }
    }

    /// The pagination built.
    pub fn build(self) -> (r: SerialParams)
        ensures
            r == self.serial_spec(),
    {
        self.serial
    }
}

impl<P> SerialBuilder<P> {
    /// A builder that returns to `parent`, on page 1 of 20 rows.
    pub fn with_parent(parent: P) -> (r: Self)
        ensures
            r.parent_spec() == Some(parent),
            r.serial_spec().page_spec() == 1 && r.serial_spec().size_spec() == 20,
    {
        SerialBuilder { parent: Some(parent), serial: SerialParams::default() }
    }

    /// Selects `page` of `per_page` rows (zero raised to one).
    pub fn page(self, page: u32, per_page: u32) -> (r: Self)
        ensures
            r.parent_spec() == self.parent_spec(),
            r.serial_spec().page_spec() == at_least_one(page),
            r.serial_spec().size_spec() == at_least_one(per_page),
    {
        SerialBuilder { parent: self.parent, serial: SerialParams::new(page, per_page) }
    }

    /// Returns to the parent, setting serial pagination with its LIMIT and OFFSET.
    pub fn done(self) -> (r: P)
        where P: HasParams,
        requires
            self.parent_spec() is Some,
        ensures
            ({
                let old_p = self.parent_spec()->0.params_spec();
                let new_p = r.params_spec();
                let s = self.serial_spec();
                &&& new_p.filters == old_p.filters && new_p.search == old_p.search
                &&& new_p.sort_by == old_p.sort_by
                &&& new_p.pagination == Some(Pagination::Serial(s))
                &&& new_p.limit == Some(LimitParam(s.size_spec()))
                &&& new_p.offset == Some(OffsetParam(page_offset_spec(s.page_spec(), s.size_spec())))
            }),
    {
        let mut parent = self.parent.unwrap();
        let limit = self.serial.limit();
        let offset = self.serial.offset();
        let p = parent.params_mut();
        p.pagination = Some(Pagination::Serial(self.serial));
        p.limit = Some(LimitParam(limit));
        p.offset = Some(OffsetParam(offset));
        parent
    }
}

/// Builds slice pagination.
pub struct SliceBuilder<P = ()> {
    parent: Option<P>,
    slice: SliceParams,
}

impl<P> SliceBuilder<P> {
    /// The builder to return to, if any.
    pub closed spec fn parent_spec(&self) -> Option<P> {
        self.parent
    }

    /// The pagination built so far.
    pub closed spec fn slice_spec(&self) -> SliceParams {
        self.slice
    }
}

impl SliceBuilder<()> {
    /// A standalone builder on page 1 of 20 rows, total count skipped.
    pub fn new() -> (r: Self)
        ensures
            r.parent_spec() is None,
            r.slice_spec().page_spec() == 1 && r.slice_spec().size_spec() == 20,
            r.slice_spec().no_total_spec(),
    {
        SliceBuilder { parent: None, slice: SliceParams::default() }
    }

    /// A standalone builder on `page` of `per_page` rows (zero raised to one).
    pub fn with_page(page: u32, per_page: u32) -> (r: Self)
        ensures
            r.parent_spec() is None,
            r.slice_spec().page_spec() == at_least_one(page),
            r.slice_spec().size_spec() == at_least_one(per_page),
            r.slice_spec().no_total_spec(),
    {
        SliceBuilder { parent: None, slice: SliceParams::new(page, per_page) }
    }

    /// The pagination built.
    pub fn build(self) -> (r: SliceParams)
        ensures
            r == self.slice_spec(),
    {
        self.slice
    }
}

impl<P> SliceBuilder<P> {
    /// A builder that returns to `parent`, on page 1 of 20 rows.
    pub fn with_parent(parent: P) -> (r: Self)
        ensures
            r.parent_spec() == Some(parent),
            r.slice_spec().page_spec() == 1 && r.slice_spec().size_spec() == 20,
            r.slice_spec().no_total_spec(),
    {
        SliceBuilder { parent: Some(parent), slice: SliceParams::default() }
    }

    /// Selects `page` of `per_page` rows (zero raised to one); the total count is skipped.
    pub fn page(self, page: u32, per_page: u32) -> (r: Self)
        ensures
            r.parent_spec() == self.parent_spec(),
            r.slice_spec().page_spec() == at_least_one(page),
            r.slice_spec().size_spec() == at_least_one(per_page),
            r.slice_spec().no_total_spec(),
    {
        SliceBuilder { parent: self.parent, slice: SliceParams::new(page, per_page) }
    }

    /// Asks for the total count as well.
    pub fn enable_total_count(self) -> (r: Self)
        ensures
            r.parent_spec() == self.parent_spec(),
            r.slice_spec().page_spec() == self.slice_spec().page_spec(),
            r.slice_spec().size_spec() == self.slice_spec().size_spec(),
            !r.slice_spec().no_total_spec(),
    {
        SliceBuilder { parent: self.parent, slice: self.slice.with_disable_total_count(false) }
    }

    /// Returns to the parent, setting slice pagination with its LIMIT and OFFSET.
    pub fn done(self) -> (r: P)
        where P: HasParams,
        requires
            self.parent_spec() is Some,
        ensures
            ({
                let old_p = self.parent_spec()->0.params_spec();
                let new_p = r.params_spec();
                let s = self.slice_spec();
                &&& new_p.filters == old_p.filters && new_p.search == old_p.search
                &&& new_p.sort_by == old_p.sort_by
                &&& new_p.pagination == Some(Pagination::Slice(s))
                &&& new_p.limit == Some(LimitParam(s.size_spec()))
                &&& new_p.offset == Some(OffsetParam(page_offset_spec(s.page_spec(), s.size_spec())))
            }),
    {
        let mut parent = self.parent.unwrap();
        let limit = self.slice.limit();
        let offset = self.slice.offset();
        let p = parent.params_mut();
        p.pagination = Some(Pagination::Slice(self.slice));
        p.limit = Some(LimitParam(limit));
        p.offset = Some(OffsetParam(offset));
        parent
    }
}

/// Cursor builder state: no direction chosen yet.
pub struct Initial;

/// Cursor builder state: explicitly the first page (empty cursor).
pub struct FirstPage;

/// Cursor builder state: the page after a row.
pub struct After;

/// Cursor builder state: the page before a row.
pub struct Before;

/// Builds cursor pagination; `S` tracks the direction chosen.
pub struct CursorBuilder<P = (), S = Initial> {
    parent: Option<P>,
    cursor: CursorParams,
    _state: PhantomData<S>,
}

impl<P, S> CursorBuilder<P, S> {
    /// The builder to return to, if any.
    pub closed spec fn parent_spec(&self) -> Option<P> {
        self.parent
    }

    /// The cursor built so far.
    pub closed spec fn cursor_spec(&self) -> CursorParams {
        self.cursor
    }

    fn finish(self) -> (r: P)
        where P: HasParams,
        requires
            self.parent_spec() is Some,
        ensures
            r.params_spec() == (Params {
                pagination: Some(Pagination::Cursor(self.cursor_spec())),
                ..self.parent_spec()->0.params_spec()
            }),
    {
        let mut parent = self.parent.unwrap();
        let p = parent.params_mut();
        p.pagination = Some(Pagination::Cursor(self.cursor));
        parent
    }
}

impl CursorBuilder<(), Initial> {
    /// A standalone builder with an empty cursor.
    pub fn new() -> (r: Self)
        ensures
            r.parent_spec() is None,
            r.cursor_spec().direction is None && r.cursor_spec().values@.len() == 0
                && r.cursor_spec().error is None,
    {
        CursorBuilder { parent: None, cursor: CursorParams::default(), _state: PhantomData }
    }

    /// The cursor built.
    pub fn build(self) -> (r: CursorParams)
        ensures
            r == self.cursor_spec(),
    {
        self.cursor
    }
}

impl<P> CursorBuilder<P, Initial> {
    /// A builder that returns to `parent`, with an empty cursor.
    pub fn with_parent(parent: P) -> (r: Self)
        ensures
            r.parent_spec() == Some(parent),
            r.cursor_spec().direction is None && r.cursor_spec().values@.len() == 0
                && r.cursor_spec().error is None,
    {
        CursorBuilder { parent: Some(parent), cursor: CursorParams::default(), _state: PhantomData }
    }

    /// The first page: an empty cursor.
    pub fn first_page(self) -> (r: CursorBuilder<P, FirstPage>)
        ensures
            r.parent_spec() == self.parent_spec(),
            r.cursor_spec().direction is None && r.cursor_spec().values@.len() == 0
                && r.cursor_spec().error is None,
    {
        CursorBuilder { parent: self.parent, cursor: CursorParams::default(), _state: PhantomData }
    }

    /// The page after the row whose first ORDER BY value is `value`.
    pub fn after(self, value: FilterValue) -> (r: CursorBuilder<P, After>)
        ensures
            r.parent_spec() == self.parent_spec(),
            r.cursor_spec().direction == Some(CursorDirection::After),
            r.cursor_spec().values@ == seq![value],
            r.cursor_spec().error is None,
    {
        let c = CursorParams::default().and_field(value);
        let cursor = CursorParams { direction: Some(CursorDirection::After), ..c };
        CursorBuilder { parent: self.parent, cursor, _state: PhantomData }
    }

    /// The page before the row whose first ORDER BY value is `value`.
    pub fn before(self, value: FilterValue) -> (r: CursorBuilder<P, Before>)
        ensures
            r.parent_spec() == self.parent_spec(),
            r.cursor_spec().direction == Some(CursorDirection::Before),
            r.cursor_spec().values@ == seq![value],
            r.cursor_spec().error is None,
    {
        let c = CursorParams::default().and_field(value);
        let cursor = CursorParams { direction: Some(CursorDirection::Before), ..c };
        CursorBuilder { parent: self.parent, cursor, _state: PhantomData }
    }

    /// The page after the row encoded in `token`, decoded by `T`; a decoding
    /// failure is kept in the cursor and reported when the query is built.
    pub fn next_cursor<T: CursorSecureExtract>(self, token: &str) -> (r: CursorBuilder<P, After>)
        ensures
            r.parent_spec() == self.parent_spec(),
            r.cursor_spec().direction == Some(CursorDirection::After),
            r.cursor_spec().error is Some ==> r.cursor_spec().values@.len() == 0,
    {
        let cursor = Self::decoded::<T>(token, CursorDirection::After);
        CursorBuilder { parent: self.parent, cursor, _state: PhantomData }
    }

    /// The page before the row encoded in `token`, decoded by `T`.
    pub fn prev_cursor<T: CursorSecureExtract>(self, token: &str) -> (r: CursorBuilder<P, Before>)
        ensures
            r.parent_spec() == self.parent_spec(),
            r.cursor_spec().direction == Some(CursorDirection::Before),
            r.cursor_spec().error is Some ==> r.cursor_spec().values@.len() == 0,
    {
        let cursor = Self::decoded::<T>(token, CursorDirection::Before);
        CursorBuilder { parent: self.parent, cursor, _state: PhantomData }
    }

    fn decoded<T: CursorSecureExtract>(token: &str, direction: CursorDirection) -> (r: CursorParams)
        ensures
            r.direction == Some(direction),
            r.error is Some ==> r.values@.len() == 0,
    {
        match T::decode(token) {
            Ok(values) => CursorParams::from_values(values, direction),
            Err(e) => {
                let msg = e.to_string();
                CursorParams::with_error(direction, msg.as_str())
            },
        }
    }
}

impl<P> CursorBuilder<P, FirstPage> {
    /// Returns to the parent, setting cursor pagination with an empty cursor.
    pub fn done(self) -> (r: P)
        where P: HasParams,
        requires
            self.parent_spec() is Some,
        ensures
            r.params_spec() == (Params {
                pagination: Some(Pagination::Cursor(self.cursor_spec())),
                ..self.parent_spec()->0.params_spec()
            }),
    {
        self.finish()
    }
}

impl<P> CursorBuilder<P, After> {
    /// Appends the next ORDER BY value (composite cursors).
    pub fn and_field(self, value: FilterValue) -> (r: Self)
        ensures
            r.parent_spec() == self.parent_spec(),
            r.cursor_spec().values@ == self.cursor_spec().values@.push(value),
            r.cursor_spec().direction == self.cursor_spec().direction,
            r.cursor_spec().error == self.cursor_spec().error,
    {
        CursorBuilder { parent: self.parent, cursor: self.cursor.and_field(value), _state: PhantomData }
    }

    /// Returns to the parent, setting cursor pagination.
    pub fn done(self) -> (r: P)
        where P: HasParams,
        requires
            self.parent_spec() is Some,
        ensures
            r.params_spec() == (Params {
                pagination: Some(Pagination::Cursor(self.cursor_spec())),
                ..self.parent_spec()->0.params_spec()
            }),
    {
        self.finish()
    }
}

impl<P> CursorBuilder<P, Before> {
    /// Appends the next ORDER BY value (composite cursors).
    pub fn and_field(self, value: FilterValue) -> (r: Self)
        ensures
            r.parent_spec() == self.parent_spec(),
            r.cursor_spec().values@ == self.cursor_spec().values@.push(value),
            r.cursor_spec().direction == self.cursor_spec().direction,
            r.cursor_spec().error == self.cursor_spec().error,
    {
        CursorBuilder { parent: self.parent, cursor: self.cursor.and_field(value), _state: PhantomData }
    }

    /// Returns to the parent, setting cursor pagination.
    pub fn done(self) -> (r: P)
        where P: HasParams,
        requires
            self.parent_spec() is Some,
        ensures
            r.params_spec() == (Params {
                pagination: Some(Pagination::Cursor(self.cursor_spec())),
                ..self.parent_spec()->0.params_spec()
            }),
    {
        self.finish()
    }
}

impl IntoParams for ParamsBuilder {
    fn into_params(self) -> (r: Params)
        ensures
            r == self.params_spec(),
    {
        self.params
    }
}

impl IntoParams for FilterBuilder<()> {
    /// The filters, unless there are none.
    fn into_params(self) -> (r: Params)
        ensures
            self.filters_spec().filters@.len() == 0 ==> r.is_empty_spec(),
            self.filters_spec().filters@.len() > 0 ==> r == (Params {
                filters: Some(self.filters_spec()),
                ..Params::default_spec()
            }),
    {
        let mut p = Params::default();
        if self.filters.filters.len() > 0 {
            p.filters = Some(self.filters);
        }
        p
    }
}

impl IntoParams for SearchBuilder<()> {
    /// The search, unless its query is empty.
    fn into_params(self) -> (r: Params)
        ensures
            self.search_spec().query@.len() == 0 ==> r.is_empty_spec(),
            self.search_spec().query@.len() > 0 ==> r == (Params {
                search: Some(self.search_spec()),
                ..Params::default_spec()
            }),
    {
        let mut p = Params::default();
        if self.search.query.as_str().unicode_len() > 0 {
            p.search = Some(self.search);
        }
        p
    }
}

impl IntoParams for SerialBuilder<()> {
    /// Serial pagination with its LIMIT and OFFSET.
    fn into_params(self) -> (r: Params)
        ensures
            r == (Params {
                pagination: Some(Pagination::Serial(self.serial_spec())),
                limit: Some(LimitParam(self.serial_spec().size_spec())),
                offset: Some(OffsetParam(page_offset_spec(self.serial_spec().page_spec(), self.serial_spec().size_spec()))),
                ..Params::default_spec()
            }),
    {
        let limit = self.serial.limit();
        let offset = self.serial.offset();
        let mut p = Params::default();
        p.pagination = Some(Pagination::Serial(self.serial));
        p.limit = Some(LimitParam(limit));
        p.offset = Some(OffsetParam(offset));
        p
    }
}

impl IntoParams for SliceBuilder<()> {
    /// Slice pagination with its LIMIT and OFFSET.
    fn into_params(self) -> (r: Params)
        ensures
            r == (Params {
                pagination: Some(Pagination::Slice(self.slice_spec())),
                limit: Some(LimitParam(self.slice_spec().size_spec())),
                offset: Some(OffsetParam(page_offset_spec(self.slice_spec().page_spec(), self.slice_spec().size_spec()))),
                ..Params::default_spec()
            }),
    {
        let limit = self.slice.limit();
        let offset = self.slice.offset();
        let mut p = Params::default();
        p.pagination = Some(Pagination::Slice(self.slice));
        p.limit = Some(LimitParam(limit));
        p.offset = Some(OffsetParam(offset));
        p
    }
}

impl IntoParams for CursorBuilder<(), Initial> {
    /// No direction chosen: no pagination.
    fn into_params(self) -> (r: Params)
        ensures
            r.is_empty_spec(),
    {
        Params::default()
    }
}

impl IntoParams for CursorBuilder<(), FirstPage> {
    /// Cursor pagination from the first page.
    fn into_params(self) -> (r: Params)
        ensures
            r == (Params { pagination: Some(Pagination::Cursor(self.cursor_spec())), ..Params::default_spec() }),
    {
        let mut p = Params::default();
        p.pagination = Some(Pagination::Cursor(self.cursor));
        p
    }
}

impl IntoParams for CursorBuilder<(), After> {
    /// Cursor pagination after the cursor row.
    fn into_params(self) -> (r: Params)
        ensures
            r == (Params { pagination: Some(Pagination::Cursor(self.cursor_spec())), ..Params::default_spec() }),
    {
        let mut p = Params::default();
        p.pagination = Some(Pagination::Cursor(self.cursor));
        p
    }
}

impl IntoParams for CursorBuilder<(), Before> {
    /// Cursor pagination before the cursor row.
    fn into_params(self) -> (r: Params)
        ensures
            r == (Params { pagination: Some(Pagination::Cursor(self.cursor_spec())), ..Params::default_spec() }),
    {
        let mut p = Params::default();
        p.pagination = Some(Pagination::Cursor(self.cursor));
        p
    }
}

impl<S> IntoParams for SortBuilder<(), S> {
    /// The sorting, unless there is no entry.
    fn into_params(self) -> (r: Params)
        ensures
            self.sorts_spec().entries().len() == 0 ==> r.is_empty_spec(),
            self.sorts_spec().entries().len() > 0 ==> r == (Params {
                sort_by: Some(self.sorts_spec()),
                ..Params::default_spec()
            }),
    {
        let mut p = Params::default();
        if !self.sorts.is_empty() {
            p.sort_by = Some(self.sorts);
        }
        p
    }
}

} // verus!
