//! Page-based pagination parameters: `SerialParams` (with a total count) and
//! `SliceParams` (optionally without one).
use vstd::prelude::*;

verus! {

/// Offset of a 1-based `page` of `size` rows, saturating at `u32::MAX`.
pub open spec fn page_offset_spec(page: u32, size: u32) -> u32 {
    let o = if page >= 1 { (page - 1) * size } else { 0 };
    if o > u32::MAX { u32::MAX } else { o as u32 }
}

/// `max(x, 1)`.
pub open spec fn at_least_one(x: u32) -> u32 {
    if x >= 1 { x } else { 1 }
}

/// `(page - 1) * size`, saturating at both ends.
fn saturating_offset(page: u32, size: u32) -> (r: u32)
    ensures
        r == page_offset_spec(page, size),
{
    let p: u64 = if page >= 1 { (page - 1) as u64 } else { 0 };
    assert(p * (size as u64) <= 0xffff_ffff_u64 * 0xffff_ffff_u64) by (nonlinear_arith)
        requires p <= 0xffff_ffff_u64, size <= 0xffff_ffff_u64;
    let o: u64 = p * (size as u64);
    if o > 0xffff_ffff_u64 { 0xffff_ffff_u32 } else { o as u32 }
}

/// Classic page-number pagination: 1-based page and page size, both at least one.
#[derive(Debug)]
pub struct SerialParams {
    page: u32,
    page_size: u32,
}

impl SerialParams {
    /// The 1-based page number.
    pub closed spec fn page_spec(&self) -> u32 {
        self.page
    }

    /// The number of rows per page.
    pub closed spec fn size_spec(&self) -> u32 {
        self.page_size
    }

    #[verifier::type_invariant]
    closed spec fn wf(&self) -> bool {
        self.page >= 1 && self.page_size >= 1
    }

    /// Page `page` of `per_page` rows; zero is raised to one in both.
    pub fn new(page: u32, per_page: u32) -> (r: Self)
        ensures
            r.page_spec() == at_least_one(page),
            r.size_spec() == at_least_one(per_page),
    {
        SerialParams {
            page: if page >= 1 { page } else { 1 },
            page_size: if per_page >= 1 { per_page } else { 1 },
        }
    }

    /// The 1-based page number.
    pub fn page(&self) -> (r: u32)
        ensures
            r == self.page_spec(),
            r >= 1,
    {
        proof { use_type_invariant(self); }
        self.page
    }

    /// Rows per page.
    pub fn per_page(&self) -> (r: u32)
        ensures
            r == self.size_spec(),
            r >= 1,
    {
        proof { use_type_invariant(self); }
        self.page_size
    }

    /// Rows to skip: `(page - 1) * per_page`, saturating at `u32::MAX`.
    pub fn offset(&self) -> (r: u32)
        ensures
            r == page_offset_spec(self.page_spec(), self.size_spec()),
    {
        saturating_offset(self.page, self.page_size)
    }

    /// Rows to fetch: the page size.
    pub fn limit(&self) -> (r: u32)
        ensures
            r == self.size_spec(),
            r >= 1,
    {
        proof { use_type_invariant(self); }
        self.page_size
    }

    /// An exact copy.
    pub fn copy(&self) -> (r: Self)
        ensures
            r.page_spec() == self.page_spec(),
            r.size_spec() == self.size_spec(),
    {
        proof { use_type_invariant(self); }
        SerialParams { page: self.page, page_size: self.page_size }
    }
}

impl Default for SerialParams {
    /// Page 1 of 20 rows.
    fn default() -> (r: Self)
        ensures
            r.page_spec() == 1,
            r.size_spec() == 20,
    {
        SerialParams { page: 1, page_size: 20 }
    }
}

/// Page-number pagination that detects a next page by fetching one extra row;
/// the total count is skipped unless enabled.
#[derive(Debug)]
pub struct SliceParams {
    page: u32,
    page_size: u32,
    pub disable_total_count: bool,
}

impl SliceParams {
    /// The 1-based page number.
    pub closed spec fn page_spec(&self) -> u32 {
        self.page
    }

    /// The number of rows per page.
    pub closed spec fn size_spec(&self) -> u32 {
        self.page_size
    }

    /// Whether the total count is skipped.
    pub closed spec fn no_total_spec(&self) -> bool {
        self.disable_total_count
    }

    #[verifier::type_invariant]
    closed spec fn wf(&self) -> bool {
        self.page >= 1 && self.page_size >= 1
    }

    /// Page `page` of `per_page` rows (zero raised to one), total count skipped.
    pub fn new(page: u32, per_page: u32) -> (r: Self)
        ensures
            r.page_spec() == at_least_one(page),
            r.size_spec() == at_least_one(per_page),
            r.no_total_spec(),
    {
        SliceParams {
            page: if page >= 1 { page } else { 1 },
            page_size: if per_page >= 1 { per_page } else { 1 },
            disable_total_count: true,
        }
    }

    /// The 1-based page number.
    pub fn page(&self) -> (r: u32)
        ensures
            r == self.page_spec(),
            r >= 1,
    {
        proof { use_type_invariant(self); }
        self.page
    }

    /// Rows per page.
    pub fn page_size(&self) -> (r: u32)
        ensures
            r == self.size_spec(),
            r >= 1,
    {
        proof { use_type_invariant(self); }
        self.page_size
    }

    /// Rows to skip: `(page - 1) * page_size`, saturating at `u32::MAX`.
    pub fn offset(&self) -> (r: u32)
        ensures
            r == page_offset_spec(self.page_spec(), self.size_spec()),
    {
        saturating_offset(self.page, self.page_size)
    }

    /// Rows per page (the extra look-ahead row is added when the query is built).
    pub fn limit(&self) -> (r: u32)
        ensures
            r == self.size_spec(),
            r >= 1,
    {
        proof { use_type_invariant(self); }
        self.page_size
    }

    /// Whether the total count is skipped.
    pub fn disable_total_count(&self) -> (r: bool)
        ensures
            r == self.no_total_spec(),
    {
        self.disable_total_count
    }

    /// The same page with the total count skipped (`true`) or computed (`false`).
    pub fn with_disable_total_count(self, disable: bool) -> (r: Self)
        ensures
            r.page_spec() == self.page_spec(),
            r.size_spec() == self.size_spec(),
            r.no_total_spec() == disable,
    {
        proof { use_type_invariant(&self); }
        SliceParams { page: self.page, page_size: self.page_size, disable_total_count: disable }
    }

    /// An exact copy.
    pub fn copy(&self) -> (r: Self)
        ensures
            r.page_spec() == self.page_spec(),
            r.size_spec() == self.size_spec(),
            r.no_total_spec() == self.no_total_spec(),
    {
        proof { use_type_invariant(self); }
        SliceParams { page: self.page, page_size: self.page_size, disable_total_count: self.disable_total_count }
    }
}

impl Default for SliceParams {
    /// Page 1 of 20 rows, total count skipped.
    fn default() -> (r: Self)
        ensures
            r.page_spec() == 1,
            r.size_spec() == 20,
            r.no_total_spec(),
    {
        SliceParams { page: 1, page_size: 20, disable_total_count: true }
    }
}

} // verus!
