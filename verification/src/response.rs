//! Pagination responses: a page of rows with the metadata that the chosen
//! pagination style provides.
use vstd::prelude::*;
use crate::cursor::{CursorDirection, CursorError, CursorErrorView, CursorParams, CursorSecureExtract, no_order_by_message};
use crate::params::{Pagination, Params};
use crate::paging::at_least_one;
use crate::sort::SortingParams;

verus! {

/// Rows per page when no LIMIT is set.
pub const DEFAULT_LIMIT: u32 = 20;

/// The page size a response uses: the LIMIT if set, else 20, and at least 1.
pub open spec fn page_size_spec(params: &Params) -> u32 {
    at_least_one(
        match params.limit {
            Some(l) => l.0,
            None => 20,
        },
    )
}

fn page_size(params: &Params) -> (r: u32)
    ensures
        r == page_size_spec(params),
        r >= 1,
{
    let l = match &params.limit {
        Some(l) => l.0,
        None => DEFAULT_LIMIT,
    };
    if l >= 1 { l } else { 1 }
}

/// Number of pages for `total` rows in pages of `size`, computed as
/// `(total + size - 1) / size` in 64-bit signed arithmetic; 1 when that
/// overflows, when `size` is 0, or when the result does not fit in `u32`,
/// and 0 when it is negative.
pub open spec fn total_pages_spec(total: i64, size: u32) -> u32 {
    let n = total + size - 1;
    if size == 0 || n > i64::MAX {
        1
    } else if n < 0 {
        0
    } else if n / (size as int) > u32::MAX {
        1
    } else {
        (n / (size as int)) as u32
    }
}

/// The page count covers the rows exactly: `total` rows in pages of `size`
/// (no overflow, and a count that fits in `u32`) take the least number of
/// pages that holds them all. The last page holds the last row, and no page
/// is empty but for a total of 0.
pub proof fn law_total_pages_cover(total: i64, size: u32)
    requires
        size >= 1,
        total >= 0,
        total + size - 1 <= i64::MAX,
        total <= (u32::MAX as int) * (size as int),
    ensures
        total_pages_spec(total, size) * size >= total,
        total > 0 ==> (total_pages_spec(total, size) - 1) * size < total,
        total == 0 ==> total_pages_spec(total, size) == 0,
{
    let s = size as int;
    let n = total + s - 1;
    let q = n / s;
    let m = n % s;
    vstd::arithmetic::div_mod::lemma_fundamental_div_mod(n, s);
    assert(0 <= m < s) by (nonlinear_arith)
        requires
            s >= 1,
            m == n % s,
    ;
    assert(q * s == n - m) by (nonlinear_arith)
        requires
            n == s * q + m,
    ;
    assert(q >= 0) by (nonlinear_arith)
        requires
            n >= 0,
            s >= 1,
            q == n / s,
    ;
    assert(q <= u32::MAX) by (nonlinear_arith)
        requires
            q * s == n - m,
            0 <= m,
            n == total + s - 1,
            total <= (u32::MAX as int) * s,
            s >= 1,
    ;
    assert(total_pages_spec(total, size) == q);
    assert((q - 1) * s == q * s - s) by (nonlinear_arith);
    if total == 0 {
        assert(q == 0) by (nonlinear_arith)
            requires
                q * s == n - m,
                n == s - 1,
                0 <= m < s,
                s >= 1,
                q >= 0,
        ;
    }
}

/// A page of results with its total count (classic page-number pagination).
#[derive(Debug, PartialEq, Eq)]
pub struct Serial<T> {
    pub data: Vec<T>,
    pub page: u32,
    pub size: u32,
    pub total_items: i64,
    pub total_pages: u32,
}

impl<T> Serial<T> {
    /// Builds the response for `data` fetched with `params`, given the total
    /// row count. Without serial pagination in `params` it reports page 1 of 1.
    pub fn new(data: Vec<T>, params: &Params, total_elements: i64) -> (r: Self)
        ensures
            r.data == data,
            r.total_items == total_elements,
            match params.pagination {
                Some(Pagination::Serial(s)) => r.page == s.page_spec() && r.size == s.size_spec()
                    && r.total_pages == total_pages_spec(total_elements, s.size_spec()),
                _ => r.page == 1 && r.size == page_size_spec(params) && r.total_pages == 1,
            },
    {
        match &params.pagination {
            Some(Pagination::Serial(serial)) => {
                let size = serial.limit();
                let total_pages = Self::calculate_total_pages(total_elements, size);
                Serial { data, page: serial.page(), size, total_items: total_elements, total_pages }
            },
            _ => {
                let default_size = page_size(params);
                Serial { data, page: 1, size: default_size, total_items: total_elements, total_pages: 1 }
            },
        }
    }

    /// `(total_items + size - 1) / size`, with the fallbacks of `total_pages_spec`.
    fn calculate_total_pages(total_items: i64, size: u32) -> (r: u32)
        ensures
            r == total_pages_spec(total_items, size),
    {
        let s: i64 = size as i64;
        if s == 0 || total_items > i64::MAX - (s - 1) {
            return 1;
        }
        let n: i64 = total_items + (s - 1);
        if n < 0 {
            return 0;
        }
        let pages: i64 = n / s;
        if pages > 0xffff_ffff_i64 {
            1
        } else {
            pages as u32
        }
    }
}

/// A page of results that knows whether a next page exists; the total
/// count is optional.
#[derive(Debug, PartialEq, Eq)]
pub struct Slice<T> {
    pub data: Vec<T>,
    pub page: u32,
    pub size: u32,
    pub has_next: bool,
    pub has_previous: bool,
    pub total_items: Option<i64>,
}

/// The first `size` rows of `data`.
pub open spec fn first_rows<T>(data: Seq<T>, size: u32) -> Seq<T> {
    if data.len() > size { data.subrange(0, size as int) } else { data }
}

/// The page number implied by OFFSET and page size: `offset / size + 1` as a
/// `u32` (wrapping to 0 past `u32::MAX`), or 1 without an OFFSET.
pub open spec fn page_from_offset_spec(params: &Params, size: u32) -> u32 {
    match params.offset {
        Some(o) => {
            let p = (o.0 as int) / (size as int) + 1;
            if p > u32::MAX { 0 } else { p as u32 }
        },
        None => 1,
    }
}

/// The OFFSET of the parameters (0 without one).
pub open spec fn offset_value(params: &Params) -> int {
    match params.offset {
        Some(o) => o.0 as int,
        None => 0,
    }
}

/// The page number a slice reports is the page that holds the row at its
/// OFFSET: with `p` the page, the rows of page `p` are those from
/// `(p - 1) * size` up to `p * size`, and the offset is among them.
pub proof fn law_page_holds_the_offset(params: &Params, size: u32)
    requires
        size >= 1,
        params.offset is Some,
        offset_value(params) / (size as int) + 1 <= u32::MAX,
    ensures
        (page_from_offset_spec(params, size) - 1) * size <= offset_value(params),
        offset_value(params) < page_from_offset_spec(params, size) * size,
{
    let o = offset_value(params);
    let s = size as int;
    let q = o / s;
    vstd::arithmetic::div_mod::lemma_fundamental_div_mod(o, s);
    assert(0 <= o % s < s) by (nonlinear_arith)
        requires
            s >= 1,
    ;
    assert(page_from_offset_spec(params, size) == q + 1);
    assert(q * s <= o && o < (q + 1) * s) by (nonlinear_arith)
        requires
            o == s * q + o % s,
            0 <= o % s < s,
    ;
}

/// A page shows the first rows fetched, in order, at most `size` of them;
/// it drops rows exactly when more than `size` were fetched, which is what
/// tells that a next page exists.
pub proof fn law_page_keeps_first_rows<T>(fetched: Seq<T>, size: u32)
    ensures
        first_rows(fetched, size).len() == (if fetched.len() > size { size as nat } else { fetched.len() }),
        forall|i: int| 0 <= i < first_rows(fetched, size).len() ==> #[trigger] first_rows(fetched, size)[i] == fetched[i],
        (first_rows(fetched, size).len() < fetched.len()) == (fetched.len() > size),
{
}

/// Drops the rows beyond `size`; true when there were any.
fn trim_to_page<T>(data: &mut Vec<T>, size: u32) -> (r: bool)
    ensures
        final(data)@ == first_rows(old(data)@, size),
        r == (old(data)@.len() > size),
{
    if data.len() > size as usize {
        data.truncate(size as usize);
        true
    } else {
        false
    }
}

impl<T> Slice<T> {
    /// Builds the response for `data`, fetched with one look-ahead row.
    /// The rows beyond the page size are dropped and signal a next page.
    pub fn new(data: Vec<T>, params: &Params, total_elements: i64) -> (r: Self)
        ensures
            r.data@ == first_rows(data@, page_size_spec(params)),
            r.size == page_size_spec(params),
            r.has_next == (data@.len() > page_size_spec(params)),
            r.has_previous == (r.page > 1),
            match params.pagination {
                Some(Pagination::Slice(s)) => r.page == s.page_spec() && r.total_items == (if s.no_total_spec() {
                    None
                } else {
                    Some(total_elements)
                }),
                _ => r.page == page_from_offset_spec(params, page_size_spec(params)) && r.total_items
                    == Some(total_elements),
            },
    {
        let mut data = data;
        let size = page_size(params);
        let has_next = trim_to_page(&mut data, size);
        match &params.pagination {
            Some(Pagination::Slice(slice)) => {
                let page = slice.page();
                let total_items = if !slice.disable_total_count() { Some(total_elements) } else { None };
                Slice { data, page, size, has_next, has_previous: page > 1, total_items }
            },
            _ => {
                let page = Self::page_offset(params, size);
                Slice { data, page, size, has_next, has_previous: page > 1, total_items: Some(total_elements) }
            },
        }
    }

    /// `offset / size + 1`, wrapping past `u32::MAX`; 1 without an OFFSET.
    fn page_offset(params: &Params, size: u32) -> (r: u32)
        requires
            size >= 1,
        ensures
            r == page_from_offset_spec(params, size),
    {
        match &params.offset {
            Some(o) => {
                let p: u64 = (o.0 / size) as u64 + 1;
                if p > 0xffff_ffff_u64 { 0 } else { p as u32 }
            },
            None => 1,
        }
    }
}

/// A page of results for cursor (keyset) pagination.
#[derive(Debug, PartialEq, Eq)]
pub struct Cursor<T> {
    pub data: Vec<T>,
    pub per_page: u32,
    pub has_next: bool,
    pub has_prev: bool,
    pub next_cursor: Option<String>,
    pub prev_cursor: Option<String>,
}

/// Reverses `v` in place.
fn reverse_rows<T>(v: &mut Vec<T>)
    ensures
        final(v)@ == old(v)@.reverse(),
{
    let mut out: Vec<T> = Vec::new();
    let ghost orig = v@;
    while v.len() > 0
        invariant
            out@ == orig.subrange(v@.len() as int, orig.len() as int).reverse(),
            v@ == orig.subrange(0, v@.len() as int),
            v@.len() <= orig.len(),
        decreases v@.len(),
    {
        let ghost k = v@.len() as int;
        let x = v.pop().unwrap();
        proof {
            assert(orig.subrange(k - 1, orig.len() as int).reverse() =~= orig.subrange(k, orig.len() as int).reverse().push(orig[k - 1]));
        }
        out.push(x);
        assert(v@ =~= orig.subrange(0, v@.len() as int));
    }
    assert(orig.subrange(0, orig.len() as int) =~= orig);
    *v = out;
}

impl<T: CursorSecureExtract> Cursor<T> {
    /// Builds the response for `data`, fetched with one look-ahead row, and the
    /// tokens for the neighbouring pages. Requires ORDER BY fields and cursor
    /// pagination in `params`. For a `Before` cursor the rows were fetched in
    /// reverse order and are put back in order.
    pub fn new(data: Vec<T>, params: &Params) -> (r: Result<Self, CursorError>)
        ensures
            params.sort_by is None ==> (r matches Err(e) && e@ == CursorErrorView::DecodeError(
                "Cursor pagination requires ORDER BY (sort_by)"@,
            )),
            (params.sort_by is Some && !(params.pagination matches Some(Pagination::Cursor(_))))
                ==> (r matches Err(e) && e@ == CursorErrorView::DecodeError("Cursor params is not present"@)),
            r is Ok ==> params.sort_by is Some && params.pagination matches Some(Pagination::Cursor(_)),
            r matches Ok(c) ==> cursor_page_ok(c, data@, params),
            cursor_tokens_needed(data@, params) == Some(false) ==> r is Ok,
            (cursor_tokens_needed(data@, params) == Some(true) && params.sort_by->0.entries().len() == 0) ==> (r matches Err(
                e,
            ) && e@ == CursorErrorView::InvalidField(no_order_by_message())),
    {
        let sort = match &params.sort_by {
            Some(s) => s,
            None => {
                return Err(CursorError::decode_error("Cursor pagination requires ORDER BY (sort_by)"));
            },
        };
        let cursor = match &params.pagination {
            Some(Pagination::Cursor(c)) => c,
            _ => {
                return Err(CursorError::decode_error("Cursor params is not present"));
            },
        };
        let is_backward = match cursor.direction {
            Some(CursorDirection::Before) => true,
            _ => false,
        };
        let requested_limit = page_size(params);
        let mut data = data;
        let has_more = trim_to_page(&mut data, requested_limit);
        let had_prev = !cursor.is_empty();
        let (next_cursor, prev_cursor) = Self::generate_cursors(cursor, &data, has_more, had_prev, sort)?;
        if is_backward {
            reverse_rows(&mut data);
        }
        Ok(Cursor {
            data,
            per_page: requested_limit,
            has_next: if is_backward { had_prev } else { has_more },
            has_prev: if is_backward { has_more } else { had_prev },
            next_cursor,
            prev_cursor,
        })
    }

    fn generate_cursors(
        cursor: &CursorParams,
        data: &Vec<T>,
        has_more_pages: bool,
        had_previous_cursor: bool,
        sorting_params: &SortingParams,
    ) -> (r: Result<(Option<String>, Option<String>), CursorError>)
        ensures
            r matches Ok((next, prev)) ==> (next is Some <==> (has_more_pages && data@.len() > 0))
                && (prev is Some <==> (had_previous_cursor && data@.len() > 0)),
            (data@.len() == 0 || (!has_more_pages && !had_previous_cursor)) ==> r matches Ok((None, None)),
            (data@.len() > 0 && (has_more_pages || had_previous_cursor) && sorting_params.entries().len() == 0)
                ==> (r matches Err(e) && e@ == CursorErrorView::InvalidField(no_order_by_message())),
    {
        if data.len() == 0 {
            return Ok((None, None));
        }
        let next = if has_more_pages {
            cursor.generate_next_cursor(data.as_slice(), has_more_pages, sorting_params)?
        } else {
            None
        };
        let prev = if had_previous_cursor {
            cursor.generate_prev_cursor(data.as_slice(), had_previous_cursor, sorting_params)?
        } else {
            None
        };
        Ok((next, prev))
    }
}

/// A cursor page shows the first rows fetched, at most a page of them: in
/// the order fetched when reading forwards, and put back in sort order
/// (reversed) when a cursor reads backwards. It has a next page when
/// reading forwards found more rows than a page holds, or when reading
/// backwards came from a cursor; and the other way round for a previous
/// page.
pub proof fn law_cursor_page_rows<T>(c: Cursor<T>, fetched: Seq<T>, params: &Params)
    requires
        cursor_page_ok(c, fetched, params),
    ensures
        c.data@.len() == (if fetched.len() > page_size_spec(params) { page_size_spec(params) as nat } else { fetched.len() }),
        params.pagination matches Some(Pagination::Cursor(cp)) ==> (if cp.direction == Some(CursorDirection::Before) {
            (forall|i: int| 0 <= i < c.data@.len() ==> #[trigger] c.data@[i] == fetched[c.data@.len() - 1 - i])
                && c.has_next == (cp.values@.len() > 0) && c.has_prev == (fetched.len() > page_size_spec(params))
        } else {
            (forall|i: int| 0 <= i < c.data@.len() ==> #[trigger] c.data@[i] == fetched[i]) && c.has_next == (
            fetched.len() > page_size_spec(params)) && c.has_prev == (cp.values@.len() > 0)
        }),
{
}

/// For sorted cursor parameters, whether the page needs a neighbour's
/// token, whose values only the row type can give: it does when rows are
/// kept and there is a next page or a previous cursor. `None` when the
/// parameters are not sorted cursor parameters.
pub open spec fn cursor_tokens_needed<T>(fetched: Seq<T>, params: &Params) -> Option<bool> {
    match (params.sort_by, params.pagination) {
        (Some(_), Some(Pagination::Cursor(cp))) => {
            let size = page_size_spec(params);
            Some(first_rows(fetched, size).len() > 0 && (fetched.len() > size || cp.values@.len() > 0))
        },
        _ => None,
    }
}

/// What a successful cursor response holds, given the fetched rows and parameters.
pub open spec fn cursor_page_ok<T>(c: Cursor<T>, fetched: Seq<T>, params: &Params) -> bool {
    let size = page_size_spec(params);
    let has_more = fetched.len() > size;
    let kept = first_rows(fetched, size);
    match params.pagination {
        Some(Pagination::Cursor(cp)) => {
            let backward = cp.direction == Some(CursorDirection::Before);
            let had_prev = cp.values@.len() > 0;
            &&& c.per_page == size
            &&& c.data@ == (if backward { kept.reverse() } else { kept })
            &&& c.has_next == (if backward { had_prev } else { has_more })
            &&& c.has_prev == (if backward { has_more } else { had_prev })
            &&& (c.next_cursor is Some <==> (has_more && kept.len() > 0))
            &&& (c.prev_cursor is Some <==> (had_prev && kept.len() > 0))
        },
        _ => false,
    }
}

} // verus!
