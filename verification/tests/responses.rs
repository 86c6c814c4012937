use sqlx_data::cursor::{Cursor as CursorToken, CursorError, CursorParams, CursorSecureExtract, CursorValue, CursorDirection};
use sqlx_data::filter::FilterValue;
use sqlx_data::params::{Pagination, Params};
use sqlx_data::response::Cursor;
use sqlx_data::sort::SortingParams;

#[derive(Debug, PartialEq, Eq)]
struct Row(i64);

impl CursorSecureExtract for Row {
    fn extract_whitelisted_fields(&self, fields: &[String]) -> Result<Vec<CursorValue>, CursorError> {
        Ok(fields.iter().map(|_| CursorValue::Int(self.0)).collect())
    }
    fn encode(_cursor: &CursorToken) -> Result<String, CursorError> {
        Ok("token".to_string())
    }
    fn decode(_encoded: &str) -> Result<Vec<FilterValue>, CursorError> {
        Ok(vec![])
    }
}

fn params(sort: SortingParams, cursor: CursorParams) -> Params {
    Params { sort_by: Some(sort), pagination: Some(Pagination::Cursor(cursor)), ..Params::default() }
}

#[test]
fn first_page_without_more_rows_needs_no_token() {
    let p = params(SortingParams::new().asc("id"), CursorParams::default());
    let page = Cursor::new(vec![Row(1), Row(2)], &p).unwrap();
    assert_eq!(page.data, vec![Row(1), Row(2)]);
    assert_eq!(page.per_page, 20);
    assert!(!page.has_next && !page.has_prev);
    assert_eq!(page.next_cursor, None);
    assert_eq!(page.prev_cursor, None);
}

#[test]
fn empty_page_is_ok_even_after_a_cursor() {
    let p = params(SortingParams::new(), CursorParams::new(FilterValue::Int(3), CursorDirection::After));
    let page = Cursor::<Row>::new(vec![], &p).unwrap();
    assert!(page.data.is_empty());
    assert!(page.has_prev);
}

#[test]
fn tokens_need_order_by_fields() {
    let p = Params { limit: Some(sqlx_data::params::LimitParam(1)), ..params(SortingParams::new(), CursorParams::default()) };
    assert!(Cursor::new(vec![Row(1), Row(2)], &p).is_err());
}

#[test]
fn next_token_when_more_rows() {
    let p = Params { limit: Some(sqlx_data::params::LimitParam(1)), ..params(SortingParams::new().asc("id"), CursorParams::default()) };
    let page = Cursor::new(vec![Row(1), Row(2)], &p).unwrap();
    assert_eq!(page.data, vec![Row(1)]);
    assert!(page.has_next);
    assert_eq!(page.next_cursor, Some("token".to_string()));
}
