use wren_session::context::SessionContext;
use wren_session::errors::ErrorKind;
use wren_session::limit::pushdown_limit;

#[test]
fn limit_above_ceiling_is_replaced() {
    let r = pushdown_limit("SELECT * FROM t LIMIT 500", Some(100)).unwrap();
    assert_eq!(r, "SELECT * FROM t LIMIT 100");
}

#[test]
fn limit_within_ceiling_is_kept() {
    let r = pushdown_limit("SELECT * FROM t LIMIT 50", Some(100)).unwrap();
    assert_eq!(r, "SELECT * FROM t LIMIT 50");
}

#[test]
fn limit_equal_to_ceiling_is_kept() {
    let r = pushdown_limit("SELECT * FROM t LIMIT 100", Some(100)).unwrap();
    assert_eq!(r, "SELECT * FROM t LIMIT 100");
}

#[test]
fn missing_limit_gets_ceiling() {
    let r = pushdown_limit("SELECT * FROM t", Some(100)).unwrap();
    assert_eq!(r, "SELECT * FROM t LIMIT 100");
}

#[test]
fn no_ceiling_returns_input_verbatim() {
    let sql = "select   *   from t   limit 999999";
    let r = pushdown_limit(sql, None).unwrap();
    assert_eq!(r, sql);
}

#[test]
fn no_ceiling_skips_parsing_entirely() {
    let sql = "this is not sql at all ;;;";
    let r = pushdown_limit(sql, None).unwrap();
    assert_eq!(r, sql);
}

#[test]
fn two_statements_are_rejected() {
    let r = pushdown_limit("SELECT * FROM a; SELECT * FROM b", Some(10));
    match r {
        Err(e) => assert_eq!(e.kind(), ErrorKind::SqlParse),
        Ok(_) => panic!("two statements must be rejected"),
    }
}

#[test]
fn unparseable_sql_is_rejected() {
    let r = pushdown_limit("FLIMSY NONSENSE 123", Some(10));
    match r {
        Err(e) => assert_eq!(e.kind(), ErrorKind::SqlParse),
        Ok(s) => panic!("nonsense must not parse, got {s}"),
    }
}

#[test]
fn non_literal_limit_is_untouched() {
    let r = pushdown_limit("SELECT * FROM t LIMIT 1 + 1", Some(0)).unwrap();
    assert_eq!(r, "SELECT * FROM t LIMIT 1 + 1");
}

#[test]
fn oversized_literal_is_capped() {
    let r = pushdown_limit(
        "SELECT * FROM t LIMIT 99999999999999999999999999999999",
        Some(10),
    )
    .unwrap();
    assert_eq!(r, "SELECT * FROM t LIMIT 10");
}

#[test]
fn derived_table_keeps_inner_query() {
    let r = pushdown_limit("SELECT * FROM (SELECT * FROM t) AS s", Some(5)).unwrap();
    assert_eq!(r, "SELECT * FROM (SELECT * FROM t) AS s LIMIT 5");
}

#[test]
fn ceiling_of_zero_is_enforced() {
    let r = pushdown_limit("SELECT * FROM t LIMIT 5", Some(0)).unwrap();
    assert_eq!(r, "SELECT * FROM t LIMIT 0");
    let r = pushdown_limit("SELECT * FROM t", Some(0)).unwrap();
    assert_eq!(r, "SELECT * FROM t LIMIT 0");
}

#[test]
fn context_method_delegates() {
    let ctx = SessionContext::new(None, None).unwrap();
    let r = ctx.pushdown_limit("SELECT * FROM t LIMIT 500", Some(100)).unwrap();
    assert_eq!(r, "SELECT * FROM t LIMIT 100");
}
