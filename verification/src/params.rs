//! Search parameters, pagination variants, and the `Params` bundle that a
//! query is built from.
use vstd::prelude::*;
use crate::cursor::CursorParams;
use crate::filter::FilterParams;
use crate::paging::{SerialParams, SliceParams, page_offset_spec};
use crate::sort::{SortingParams, SortView};
use crate::text::string_of;

verus! {

/// Free-text search over a list of columns.
#[derive(Debug, PartialEq)]
pub struct SearchParams {
    pub query: String,
    pub fields: Vec<String>,
    pub case_sensitive: bool,
    pub exact_match: bool,
}

impl Clone for SearchParams {
    /// A copy with the same query, fields and flags.
    fn clone(&self) -> (r: Self)
        ensures
            r.query@ == self.query@,
            r.fields.deep_view() == self.fields.deep_view(),
            r.case_sensitive == self.case_sensitive,
            r.exact_match == self.exact_match,
    {
        let mut fields: Vec<String> = Vec::new();
        let mut i: usize = 0;
        while i < self.fields.len()
            invariant
                i <= self.fields@.len(),
                fields.deep_view() == self.fields.deep_view().subrange(0, i as int),
            decreases self.fields@.len() - i,
        {
            let ghost before = fields.deep_view();
            let c = self.fields[i].clone();
            fields.push(c);
            assert(fields.deep_view() =~= before.push(self.fields@[i as int]@));
            assert(self.fields.deep_view().subrange(0, i + 1) =~= self.fields.deep_view().subrange(0, i as int).push(
                self.fields@[i as int]@,
            ));
            i = i + 1;
        }
        assert(self.fields.deep_view().subrange(0, self.fields@.len() as int) =~= self.fields.deep_view());
        SearchParams {
            query: self.query.clone(),
            fields,
            case_sensitive: self.case_sensitive,
            exact_match: self.exact_match,
        }
    }
}

impl SearchParams {
    /// Case-insensitive substring search for `query` in `fields`.
    pub fn new(query: &str, fields: Vec<String>) -> (r: Self)
        ensures
            r.query@ == query@,
            r.fields == fields,
            !r.case_sensitive,
            !r.exact_match,
    {
        SearchParams { query: string_of(query), fields, case_sensitive: false, exact_match: false }
    }

    /// The same search, case-sensitive or not.
    pub fn with_case_sensitive(self, sensitive: bool) -> (r: Self)
        ensures
            r == (SearchParams { case_sensitive: sensitive, ..self }),
    {
        let mut s = self;
        s.case_sensitive = sensitive;
        s
    }

    /// The same search, matching the whole value or a substring.
    pub fn with_exact_match(self, exact: bool) -> (r: Self)
        ensures
            r == (SearchParams { exact_match: exact, ..self }),
    {
        let mut s = self;
        s.exact_match = exact;
        s
    }
}

/// An explicit LIMIT.
#[derive(Debug, Clone, Copy, PartialEq, Eq, Structural)]
pub struct LimitParam(pub u32);

/// An explicit OFFSET.
#[derive(Debug, Clone, Copy, PartialEq, Eq, Structural)]
pub struct OffsetParam(pub u32);

/// The pagination style of a query.
#[derive(Debug)]
pub enum Pagination {
    Serial(SerialParams),
    Slice(SliceParams),
    Cursor(CursorParams),
}

impl Default for Pagination {
    /// Serial pagination, page 1 of 20 rows.
    fn default() -> (r: Self)
        ensures
            r matches Pagination::Serial(s) && s.page_spec() == 1 && s.size_spec() == 20,
    {
        Pagination::Serial(SerialParams::default())
    }
}

/// Everything that modifies a base query: filters, search, sorting,
/// LIMIT/OFFSET and pagination.
#[derive(Debug)]
pub struct Params {
    pub filters: Option<FilterParams>,
    pub search: Option<SearchParams>,
    pub sort_by: Option<SortingParams>,
    pub limit: Option<LimitParam>,
    pub offset: Option<OffsetParam>,
    pub pagination: Option<Pagination>,
}

impl Default for Params {
    /// No modifications at all.
    fn default() -> (r: Self)
        ensures
            r == Params::default_spec(),
    {
        Params {
            filters: None,
            search: None,
            sort_by: None,
            limit: None,
            offset: None,
            pagination: None,
        }
    }
}

impl Params {
    /// The parameters with nothing set.
    pub open spec fn default_spec() -> Params {
        Params { filters: None, search: None, sort_by: None, limit: None, offset: None, pagination: None }
    }

    /// Whether nothing is set.
    pub open spec fn is_empty_spec(&self) -> bool {
        self.filters is None && self.search is None && self.sort_by is None && self.pagination is None
            && self.limit is None && self.offset is None
    }

    /// Whether the pagination needs one extra row to detect a next page.
    pub open spec fn plus_one_spec(&self) -> u32 {
        match self.pagination {
            Some(Pagination::Slice(_)) => 1,
            Some(Pagination::Cursor(_)) => 1,
            _ => 0,
        }
    }

    /// Whether nothing is set.
    pub fn is_empty(&self) -> (r: bool)
        ensures
            r == self.is_empty_spec(),
    {
        self.filters.is_none() && self.search.is_none() && self.sort_by.is_none()
            && self.pagination.is_none() && self.limit.is_none() && self.offset.is_none()
    }

    /// Whether anything is set.
    pub fn has_modifications(&self) -> (r: bool)
        ensures
            r == !self.is_empty_spec(),
    {
        !self.is_empty()
    }

    /// True only for slice pagination that skips the total count.
    pub fn is_disable_total_count(&self) -> (r: bool)
        ensures
            r == (self.pagination matches Some(Pagination::Slice(s)) && s.no_total_spec()),
    {
        match &self.pagination {
            Some(Pagination::Slice(slice)) => slice.disable_total_count(),
            _ => false,
        }
    }

    /// 1 for slice and cursor pagination (one look-ahead row), else 0.
    pub fn limit_plus_one(&self) -> (r: u32)
        ensures
            r == self.plus_one_spec(),
    {
        match &self.pagination {
            Some(Pagination::Slice(_)) => 1,
            Some(Pagination::Cursor(_)) => 1,
            Some(Pagination::Serial(_)) => 0,
            None => 0,
        }
    }
}

/// Conversion of a parameter source into the `Params` a query is built from.
pub trait IntoParams {
    fn into_params(self) -> Params;
}

impl IntoParams for Params {
    fn into_params(self) -> (r: Params)
        ensures
            r == self,
    {
        self
    }
}

impl IntoParams for SortingParams {
    fn into_params(self) -> (r: Params)
        ensures
            r.sort_by == Some(self),
            r.filters is None && r.search is None && r.pagination is None && r.limit is None
                && r.offset is None,
    {
        Params {
            filters: None,
            search: None,
            sort_by: Some(self),
            pagination: None,
            limit: None,
            offset: None,
        }
    }
}

impl IntoParams for SearchParams {
    fn into_params(self) -> (r: Params)
        ensures
            r.search == Some(self),
            r.filters is None && r.sort_by is None && r.pagination is None && r.limit is None
                && r.offset is None,
    {
        Params {
            filters: None,
            search: Some(self),
            sort_by: None,
            pagination: None,
            limit: None,
            offset: None,
        }
    }
}

impl IntoParams for FilterParams {
    fn into_params(self) -> (r: Params)
        ensures
            r.filters == Some(self),
            r.search is None && r.sort_by is None && r.pagination is None && r.limit is None
                && r.offset is None,
    {
        Params {
            filters: Some(self),
            search: None,
            sort_by: None,
            pagination: None,
            limit: None,
            offset: None,
        }
    }
}

impl IntoParams for SerialParams {
    /// Serial pagination with LIMIT = page size and OFFSET = (page - 1) * page size.
    fn into_params(self) -> (r: Params)
        ensures
            r.pagination matches Some(Pagination::Serial(s)) && s.page_spec() == self.page_spec()
                && s.size_spec() == self.size_spec(),
            r.limit == Some(LimitParam(self.size_spec())),
            r.offset == Some(OffsetParam(page_offset_spec(self.page_spec(), self.size_spec()))),
            r.filters is None && r.search is None && r.sort_by is None,
    {
        let page_size = self.limit();
        let offset = self.offset();
        Params {
            filters: None,
            search: None,
            sort_by: None,
            pagination: Some(Pagination::Serial(self)),
            limit: Some(LimitParam(page_size)),
            offset: Some(OffsetParam(offset)),
        }
    }
}

impl IntoParams for SliceParams {
    /// Slice pagination with LIMIT = page size and OFFSET = (page - 1) * page size.
    fn into_params(self) -> (r: Params)
        ensures
            r.pagination matches Some(Pagination::Slice(s)) && s.page_spec() == self.page_spec()
                && s.size_spec() == self.size_spec() && s.no_total_spec() == self.no_total_spec(),
            r.limit == Some(LimitParam(self.size_spec())),
            r.offset == Some(OffsetParam(page_offset_spec(self.page_spec(), self.size_spec()))),
            r.filters is None && r.search is None && r.sort_by is None,
    {
        let page_size = self.limit();
        let offset = self.offset();
        Params {
            filters: None,
            search: None,
            sort_by: None,
            pagination: Some(Pagination::Slice(self)),
            limit: Some(LimitParam(page_size)),
            offset: Some(OffsetParam(offset)),
        }
    }
}

impl IntoParams for CursorParams {
    /// Cursor pagination with the default LIMIT of 20 and no OFFSET.
    fn into_params(self) -> (r: Params)
        ensures
            r.pagination == Some(Pagination::Cursor(self)),
            r.limit == Some(LimitParam(20)),
            r.offset is None,
            r.filters is None && r.search is None && r.sort_by is None,
    {
        Params {
            filters: None,
            search: None,
            sort_by: None,
            pagination: Some(Pagination::Cursor(self)),
            limit: Some(LimitParam(20)),
            offset: None,
        }
    }
}

} // verus!
