//! Cursor (keyset) pagination: the values of the last or first row of a page,
//! the parameters that carry them into the next query, and the errors.
use vstd::prelude::*;
use crate::filter::{FilterValue, FilterValueView, values_view};
use crate::sort::{SortingParams, SortView};
use crate::text::string_of;

verus! {

/// One value of a cursor, as sent to the client.
///
/// Floating-point values are carried as their IEEE-754 bit pattern.
#[derive(Debug, PartialEq)]
pub enum CursorValue {
    Int(i64),
    UInt(u64),
    Float(u64),
    Bool(bool),
    String(String),
}

/// One entry of a client-facing cursor.
#[derive(Debug, PartialEq)]
pub struct CursorEntry {
    pub value: CursorValue,
}

/// Client-facing cursor data: one entry per ORDER BY field.
#[derive(Debug, PartialEq)]
pub struct Cursor {
    pub entries: Vec<CursorEntry>,
    pub version: Option<u8>,
    pub fingerprint: Option<u64>,
}

impl Default for Cursor {
    fn default() -> (r: Self)
        ensures
            r.entries@.len() == 0,
            r.version is None,
            r.fingerprint is None,
    {
        Cursor { entries: Vec::new(), version: None, fingerprint: None }
    }
}

impl Cursor {
    /// An empty cursor.
    pub fn new() -> (r: Self)
        ensures
            r.entries@.len() == 0,
            r.version is None,
            r.fingerprint is None,
    {
        Self::default()
    }

    /// A cursor with the given entries and no version or fingerprint.
    pub fn new_multi(entries: Vec<CursorEntry>) -> (r: Self)
        ensures
            r.entries == entries,
            r.version is None,
            r.fingerprint is None,
    {
        Cursor { entries, version: None, fingerprint: None }
    }

    /// Appends one entry.
    pub fn and_field(self, value: CursorValue) -> (r: Self)
        ensures
            r.entries@ == self.entries@.push(CursorEntry { value }),
            r.version == self.version,
            r.fingerprint == self.fingerprint,
    {
        let mut entries = self.entries;
        entries.push(CursorEntry { value });
        Cursor { entries, version: self.version, fingerprint: self.fingerprint }
    }
}

/// Which way a cursor moves from the row it names.
#[derive(Debug, Clone, Copy, PartialEq, Eq, Structural)]
pub enum CursorDirection {
    After,
    Before,
}

/// Cursor parameters used when building a query: the direction, the decoded
/// values (one per ORDER BY field), and a decoding error, if any.
#[derive(Debug, PartialEq)]
pub struct CursorParams {
    pub direction: Option<CursorDirection>,
    pub values: Vec<FilterValue>,
    pub error: Option<String>,
}

impl Default for CursorParams {
    fn default() -> (r: Self)
        ensures
            r.direction is None,
            r.values@.len() == 0,
            r.error is None,
    {
        CursorParams { direction: None, values: Vec::new(), error: None }
    }
}

/// The abstract content of a cursor error.
pub enum CursorErrorView {
    InvalidField(Seq<char>),
    EmptyData,
    EncodeError(Seq<char>),
    DecodeError(Seq<char>),
}

#[derive(Debug)]
enum CursorErrorKind {
    InvalidField(String),
    EmptyData,
    EncodeError(String),
    DecodeError(String),
}

/// Error raised while building or reading cursors.
#[derive(Debug)]
pub struct CursorError(CursorErrorKind);

impl View for CursorError {
    type V = CursorErrorView;

    closed spec fn view(&self) -> CursorErrorView {
        match &self.0 {
            CursorErrorKind::InvalidField(s) => CursorErrorView::InvalidField(s@),
            CursorErrorKind::EmptyData => CursorErrorView::EmptyData,
            CursorErrorKind::EncodeError(s) => CursorErrorView::EncodeError(s@),
            CursorErrorKind::DecodeError(s) => CursorErrorView::DecodeError(s@),
        }
    }
}

/// The display text of a cursor error.
pub open spec fn cursor_error_message(e: CursorErrorView) -> Seq<char> {
    match e {
        CursorErrorView::InvalidField(f) => "Field '"@ + f + "' not allowed for cursor pagination"@,
        CursorErrorView::EmptyData => "Data is empty"@,
        CursorErrorView::EncodeError(m) => "Encoding cursor failed: "@ + m,
        CursorErrorView::DecodeError(m) => "Decoding cursor failed: "@ + m,
    }
}

impl CursorError {
    /// A field is not allowed (or not usable) for cursor pagination.
    pub fn invalid_field(field: &str) -> (r: Self)
        ensures
            r@ == CursorErrorView::InvalidField(field@),
    {
        CursorError(CursorErrorKind::InvalidField(string_of(field)))
    }

    /// There was no row to build a cursor from.
    pub fn empty_data() -> (r: Self)
        ensures
            r@ == CursorErrorView::EmptyData,
    {
        CursorError(CursorErrorKind::EmptyData)
    }

    /// Encoding a cursor failed.
    pub fn encode_error(msg: &str) -> (r: Self)
        ensures
            r@ == CursorErrorView::EncodeError(msg@),
    {
        CursorError(CursorErrorKind::EncodeError(string_of(msg)))
    }

    /// Decoding a cursor failed.
    pub fn decode_error(msg: &str) -> (r: Self)
        ensures
            r@ == CursorErrorView::DecodeError(msg@),
    {
        CursorError(CursorErrorKind::DecodeError(string_of(msg)))
    }

    /// The display text of this error.
    pub fn to_string(&self) -> (r: String)
        ensures
            r@ == cursor_error_message(self@),
    {
        match &self.0 {
            CursorErrorKind::InvalidField(f) => {
                let mut m = string_of("Field '");
                m.append(f.as_str());
                m.append("' not allowed for cursor pagination");
                m
            },
            CursorErrorKind::EmptyData => string_of("Data is empty"),
            CursorErrorKind::EncodeError(s) => {
                let mut m = string_of("Encoding cursor failed: ");
                m.append(s.as_str());
                m
            },
            CursorErrorKind::DecodeError(s) => {
                let mut m = string_of("Decoding cursor failed: ");
                m.append(s.as_str());
                m
            },
        }
    }
}

/// Rows that can take part in cursor pagination.
///
/// Implementations whitelist, field by field, which columns may be read into
/// a cursor, and choose how cursors are encoded into and decoded from tokens.
pub trait CursorSecureExtract: Sized {
    /// The values of the named fields of this row, rejecting any field not whitelisted.
    fn extract_whitelisted_fields(&self, fields: &[String]) -> Result<Vec<CursorValue>, CursorError>;

    /// Encodes a cursor into a token.
    fn encode(cursor: &Cursor) -> Result<String, CursorError>;

    /// Decodes a token into the values of a cursor.
    fn decode(encoded: &str) -> Result<Vec<FilterValue>, CursorError>;
}

impl CursorParams {
    /// A cursor on one value in `direction`.
    pub fn new(value: FilterValue, direction: CursorDirection) -> (r: Self)
        ensures
            r.direction == Some(direction),
            values_view(r.values@) == seq![value@],
            r.error is None,
    {
        let values = vec![value];
        assert(values_view(values@) =~= seq![values@[0]@]);
        CursorParams { values, direction: Some(direction), error: None }
    }

    /// A cursor on decoded `values` in `direction`.
    pub fn from_values(values: Vec<FilterValue>, direction: CursorDirection) -> (r: Self)
        ensures
            r.direction == Some(direction),
            r.values == values,
            r.error is None,
    {
        CursorParams { values, direction: Some(direction), error: None }
    }

    /// A cursor whose token could not be decoded; it has no values.
    pub fn with_error(direction: CursorDirection, error: &str) -> (r: Self)
        ensures
            r.direction == Some(direction),
            r.values@.len() == 0,
            r.error matches Some(e) && e@ == error@,
    {
        CursorParams { values: Vec::new(), direction: Some(direction), error: Some(string_of(error)) }
    }

    /// Appends one value (for composite cursors).
    pub fn and_field(self, value: FilterValue) -> (r: Self)
        ensures
            r.values@ == self.values@.push(value),
            r.direction == self.direction,
            r.error == self.error,
    {
        let mut values = self.values;
        values.push(value);
        CursorParams { values, direction: self.direction, error: self.error }
    }

    /// Read access to the values.
    pub fn values(&self) -> (r: &[FilterValue])
        ensures
            r@ == self.values@,
    {
        self.values.as_slice()
    }

    /// Whether there are no values.
    pub fn is_empty(&self) -> (r: bool)
        ensures
            r == (self.values@.len() == 0),
    {
        self.values.len() == 0
    }

    /// The number of values.
    pub fn len(&self) -> (r: usize)
        ensures
            r == self.values@.len(),
    {
        self.values.len()
    }

    /// Whether decoding failed.
    pub fn has_error(&self) -> (r: bool)
        ensures
            r == self.error is Some,
    {
        self.error.is_some()
    }

    /// The decoding error, if any.
    pub fn error(&self) -> (r: Option<&str>)
        ensures
            r is Some == self.error is Some,
            r matches Some(s) ==> s@ == self.error->0@,
    {
        match &self.error {
            Some(e) => Some(e.as_str()),
            None => None,
        }
    }

    /// An exact copy.
    pub fn copy(&self) -> (r: Self)
        ensures
            r.direction == self.direction,
            values_view(r.values@) == values_view(self.values@),
            r.error == self.error,
    {
        let error = match &self.error {
            Some(e) => Some(e.clone()),
            None => None,
        };
        CursorParams { direction: self.direction, values: crate::filter::copy_values(&self.values), error }
    }

    /// Builds a cursor from the last (`from_last`) or first row of `data`, on
    /// the ORDER BY fields of `sorting_params`. No cursor when `has_more` is
    /// false or `data` is empty; an error when there are no ORDER BY fields, when
    /// the row rejects a field, or when it returns a different number of values.
    fn generate_cursor<T: CursorSecureExtract>(
        data: &[T],
        has_more: bool,
        sorting_params: &SortingParams,
        from_last: bool,
    ) -> (r: Result<(Option<Cursor>, Ghost<Option<int>>), CursorError>)
        ensures
            (!has_more || data@.len() == 0) ==> r matches Ok((None, _)),
            (has_more && data@.len() > 0 && sorting_params.entries().len() == 0) ==> (r matches Err(e)
                && e@ == CursorErrorView::InvalidField(no_order_by_message())),
            r matches Ok((Some(c), _)) ==> has_more && data@.len() > 0 && c.entries@.len()
                == sorting_params.entries().len() && c.version is None && c.fingerprint is None,
            r matches Ok((Some(_), row)) ==> row@ == Some(cursor_row(data@.len() as int, from_last)),
            r matches Ok((None, _)) ==> !has_more || data@.len() == 0,
    {
        if !has_more || data.len() == 0 {
            return Ok((None, Ghost(None)));
        }
        let sorts = sorting_params.sorts();
        let mut fields: Vec<String> = Vec::new();
        let mut i: usize = 0;
        while i < sorts.len()
            invariant
                i <= sorts@.len(),
                fields@.len() == i,
            decreases sorts@.len() - i,
        {
            fields.push(sorts[i].field_name().clone());
            i = i + 1;
        }
        if fields.len() == 0 {
            return Err(CursorError::invalid_field("Cursor pagination requires ORDER BY fields"));
        }
        let (item, row) = page_row(data, from_last);
        let values = item.extract_whitelisted_fields(fields.as_slice())?;
        if values.len() != fields.len() {
            return Err(CursorError::invalid_field("Cursor fields mismatch with sorting params"));
        }
        let mut entries: Vec<CursorEntry> = Vec::new();
        let mut values = values;
        let n = values.len();
        while values.len() > 0
            invariant
                entries@.len() + values@.len() == n,
            decreases values@.len(),
        {
            let v = values.remove(0);
            entries.push(CursorEntry { value: v });
        }
        Ok((Some(Cursor::new_multi(entries)), row))
    }

    /// The token for the page after `data`: built from its last row and encoded
    /// by `T`; none when `has_next` is false or `data` is empty.
    pub fn generate_next_cursor<T: CursorSecureExtract>(
        &self,
        data: &[T],
        has_next: bool,
        sorting_params: &SortingParams,
    ) -> (r: Result<Option<String>, CursorError>)
        ensures
            r matches Ok(None) <==> (!has_next || data@.len() == 0),
            (has_next && data@.len() > 0 && sorting_params.entries().len() == 0) ==> (r matches Err(e)
                && e@ == CursorErrorView::InvalidField(no_order_by_message())),
    {
        let (cursor, _) = Self::generate_cursor(data, has_next, sorting_params, true)?;
        match cursor {
            Some(c) => Ok(Some(T::encode(&c)?)),
            None => Ok(None),
        }
    }

    /// The token for the page before `data`: built from its first row and
    /// encoded by `T`; none when `has_prev` is false or `data` is empty.
    pub fn generate_prev_cursor<T: CursorSecureExtract>(
        &self,
        data: &[T],
        has_prev: bool,
        sorting_params: &SortingParams,
    ) -> (r: Result<Option<String>, CursorError>)
        ensures
            r matches Ok(None) <==> (!has_prev || data@.len() == 0),
            (has_prev && data@.len() > 0 && sorting_params.entries().len() == 0) ==> (r matches Err(e)
                && e@ == CursorErrorView::InvalidField(no_order_by_message())),
    {
        let (cursor, _) = Self::generate_cursor(data, has_prev, sorting_params, false)?;
        match cursor {
            Some(c) => Ok(Some(T::encode(&c)?)),
            None => Ok(None),
        }
    }
}

/// The row of a page of `len` rows that a cursor is built from: the last
/// for the next page, the first for the previous one.
pub open spec fn cursor_row(len: int, from_last: bool) -> int {
    if from_last { len - 1 } else { 0 }
}

/// The row of `data` that a cursor is built from (see `cursor_row`), with
/// its position.
fn page_row<T>(data: &[T], from_last: bool) -> (r: (&T, Ghost<Option<int>>))
    requires
        data@.len() > 0,
    ensures
        r.1@ == Some(cursor_row(data@.len() as int, from_last)),
        *r.0 == data@[cursor_row(data@.len() as int, from_last)],
{
    if from_last {
        (&data[data.len() - 1], Ghost(Some(data.len() - 1)))
    } else {
        (&data[0], Ghost(Some(0)))
    }
}

/// A cursor marks where a page ends: the next page's cursor is built from
/// the page's last row and the previous page's from its first. On a page of
/// more than one row the two are different rows, so the next page starts
/// after the whole page and repeats none of it.
pub proof fn law_cursor_rows_bound_the_page<T>(page: Seq<T>)
    requires
        page.len() > 0,
    ensures
        0 <= cursor_row(page.len() as int, true) < page.len(),
        0 <= cursor_row(page.len() as int, false) < page.len(),
        page[cursor_row(page.len() as int, true)] == page.last(),
        page[cursor_row(page.len() as int, false)] == page.first(),
        page.len() > 1 ==> cursor_row(page.len() as int, true) > cursor_row(page.len() as int, false),
{
}

/// Text of the error raised when cursor pagination has no ORDER BY fields.
pub open spec fn no_order_by_message() -> Seq<char> {
    "Cursor pagination requires ORDER BY fields"@
}

} // verus!
