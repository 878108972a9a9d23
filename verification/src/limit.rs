use crate::digits::all_digits;
use crate::digits::capped_digits;
use crate::digits::check_digits;
use crate::digits::decimal_chars;
use crate::digits::digits_value;
use crate::digits::format_usize;
use crate::digits::lemma_cap_is_min;
use crate::digits::lemma_decimal_chars_value;
use crate::digits::parse_digits;
use crate::errors::CoreError;
use crate::errors::ErrorKind;
use sqlparser::ast::visit_statements_mut;
use sqlparser::ast::Expr;
use sqlparser::ast::Statement;
use sqlparser::ast::Value;
use vstd::prelude::*;

verus! {

/// What the rewriter reads of a query block's `LIMIT` clause.
pub enum LimitClause {
    /// The query block has no `LIMIT` clause.
    Absent,
    /// `LIMIT` is a numeric literal with these digit characters; the flag is
    /// the dialect's long-number marker, kept as found.
    Number { digits: String, long: bool },
    /// `LIMIT` is some other expression (a parameter, a computed value);
    /// such limits are left untouched.
    Other,
}

/// The mathematical shape of a `LIMIT` clause.
pub ghost enum LimitClauseV {
    Absent,
    Number { digits: Seq<char>, long: bool },
    Other,
}

impl View for LimitClause {
    type V = LimitClauseV;

    open spec fn view(&self) -> LimitClauseV {
        match self {
            LimitClause::Absent => LimitClauseV::Absent,
            LimitClause::Number { digits, long } => LimitClauseV::Number {
                digits: digits@,
                long: *long,
            },
            LimitClause::Other => LimitClauseV::Other,
        }
    }
}

/// The pushdown policy, one query block's `LIMIT` clause at a time: a
/// missing clause becomes the ceiling's digit literal; a digit literal above
/// the ceiling becomes the ceiling's (keeping its long-number marker); a
/// non-digit literal, and any other clause, stands.
pub open spec fn spec_decide(cur: LimitClauseV, ceiling: usize) -> LimitClauseV {
    match cur {
        LimitClauseV::Absent => LimitClauseV::Number {
            digits: decimal_chars(ceiling as int),
            long: false,
        },
        LimitClauseV::Number { digits, long } => if digits.len() > 0 && all_digits(digits) {
            LimitClauseV::Number { digits: capped_digits(digits, ceiling as int), long: long }
        } else {
            LimitClauseV::Number { digits: digits, long: long }
        },
        LimitClauseV::Other => LimitClauseV::Other,
    }
}

#[verifier::external_type_specification]
#[verifier::external_body]
pub struct ExStatement(Statement);

/// What sqlparser's `Parser::parse_sql` makes of a SQL text under the
/// generic dialect: `None` when the text does not parse, otherwise its
/// top-level statements in order.
pub uninterp spec fn parsed_statements(sql: Seq<char>) -> Option<Seq<Statement>>;

/// How many top-level statements a SQL text parses to, if it parses.
pub open spec fn sql_statement_count(sql: Seq<char>) -> Option<nat> {
    match parsed_statements(sql) {
        Some(ss) => Some(ss.len()),
        None => None,
    }
}

/// The `LIMIT` clauses of a statement's query blocks, as the statement
/// traversal meets them.
pub uninterp spec fn limit_clauses(s: Statement) -> Seq<LimitClauseV>;

/// The statement after the rewrite of every query block's `LIMIT` clause
/// under a ceiling.
pub uninterp spec fn capped_statement(s: Statement, ceiling: usize) -> Statement;

/// The SQL text a statement renders to.
pub uninterp spec fn rendered_statement(s: Statement) -> Seq<char>;

/// Relies on sqlparser's `Parser::parse_sql` with `GenericDialect`: parses a
/// SQL text into its top-level statements; success and the statements are a
/// function of the text alone.
#[verifier::external_body]
fn parse_sql_statements(sql: &str) -> (r: Result<Vec<Statement>, String>)
    ensures
        (r is Ok) <==> (parsed_statements(sql@) is Some),
        r matches Ok(v) ==> parsed_statements(sql@) == Some(v@),
{
    sqlparser::parser::Parser::parse_sql(&sqlparser::dialect::GenericDialect {}, sql)
        .map_err(|e| e.to_string())
}

/// Relies on sqlparser's `visit_statements_mut`: walks the statement's nodes
/// and rewrites each query statement's `LIMIT` clause to whatever
/// `decide_limit` answers for it — so the clauses after the call are exactly
/// the policy's answers for the clauses before it — and nothing else of the
/// tree is touched.
#[verifier::external_body]
fn cap_statement_limits(stmt: &mut Statement, ceiling: usize)
    ensures
        *final(stmt) == capped_statement(*old(stmt), ceiling),
        limit_clauses(*final(stmt)) == limit_clauses(*old(stmt)).map_values(
            |c: LimitClauseV| spec_decide(c, ceiling),
        ),
{
    let _ = visit_statements_mut(stmt, |s| {
        if let Statement::Query(q) = s {
            let cur = match &q.limit {
                None => LimitClause::Absent,
                Some(Expr::Value(Value::Number(n, l))) => LimitClause::Number { digits: n.clone(), long: *l },
                Some(_) => LimitClause::Other,
            };
            if let Some((digits, long)) = decide_limit(&cur, ceiling) {
                q.limit = Some(Expr::Value(Value::Number(digits, long)));
            }
        }
        core::ops::ControlFlow::<()>::Continue(())
    });
}

/// Relies on sqlparser's `Display` impl for `Statement`: renders the
/// rewritten statement back to SQL text, a function of the statement alone.
#[verifier::external_body]
fn render_statement(stmt: &Statement) -> (r: String)
    ensures
        r@ == rendered_statement(*stmt),
{
    stmt.to_string()
}

/// Does a `LIMIT` literal's digit string denote more than the ceiling?
pub fn digits_exceed(digits: &str, ceiling: usize) -> (r: bool)
    ensures
        r == (digits@.len() > 0 && all_digits(digits@) && digits_value(digits@) > ceiling as int),
{
    if !check_digits(digits) {
        return false;
    }
    match parse_digits(digits) {
        Some(v) => v > ceiling,
        None => true,
    }
}

/// Law: the policy gives a query block without a `LIMIT` clause one whose
/// literal denotes exactly the ceiling.
pub proof fn lemma_absent_block_gets_ceiling(ceiling: usize)
    ensures
        spec_decide(LimitClauseV::Absent, ceiling) matches LimitClauseV::Number { digits, long }
            && digits_value(digits) == ceiling as int && !long,
{
    lemma_decimal_chars_value(ceiling as int);
}

/// Law: the policy rewrites a numeric `LIMIT` literal to denote exactly the
/// smaller of its own value and the ceiling, keeping its long-number marker.
pub proof fn lemma_literal_block_capped_to_min(digits: Seq<char>, long: bool, ceiling: usize)
    requires
        digits.len() > 0,
        all_digits(digits),
    ensures
        spec_decide(LimitClauseV::Number { digits, long }, ceiling) matches LimitClauseV::Number {
            digits: d,
            long: l,
        } && l == long && digits_value(d) == (if digits_value(digits) <= ceiling as int {
            digits_value(digits)
        } else {
            ceiling as int
        }),
{
    lemma_cap_is_min(digits, ceiling as int);
}

/// The one rewriting decision of the pushdown policy, for one query block:
/// the returned pair, if any, is the digit literal to write into the `LIMIT`
/// clause; `None` keeps the clause as it stands. The net effect on the
/// clause is exactly `spec_decide`.
pub fn decide_limit(cur: &LimitClause, ceiling: usize) -> (r: Option<(String, bool)>)
    ensures
        match *cur {
            LimitClause::Absent => r matches Some(p) && p.0@ == decimal_chars(ceiling as int)
                && p.1 == false,
            LimitClause::Number { ref digits, long } => {
                if digits@.len() > 0 && all_digits(digits@) && digits_value(digits@)
                    > ceiling as int {
                    r matches Some(p) && p.0@ == decimal_chars(ceiling as int) && p.1 == long
                } else {
                    r is None
                }
            },
            LimitClause::Other => r is None,
        },
        (match r {
            Some(p) => LimitClauseV::Number { digits: p.0@, long: p.1 },
            None => cur@,
        }) == spec_decide(cur@, ceiling),
{
    match cur {
        LimitClause::Absent => Some((format_usize(ceiling), false)),
        LimitClause::Number { digits, long } => {
            if digits_exceed(digits.as_str(), ceiling) {
                Some((format_usize(ceiling), *long))
            } else {
                None
            }
        },
        LimitClause::Other => None,
    }
}

/// Rewrite `sql` so that no query block requests more than `limit` rows.
///
/// With no ceiling the input is returned verbatim, without parsing. With a
/// ceiling the text must parse to exactly one statement; each of that
/// statement's query blocks gets its `LIMIT` clause rewritten by the policy
/// (`spec_decide`), and the result is the rewritten statement's rendering.
pub fn pushdown_limit(sql: &str, limit: Option<usize>) -> (r: Result<String, CoreError>)
    ensures
        limit is None ==> (r matches Ok(s) && s@ == sql@),
        limit is Some ==> ((r is Ok) <==> sql_statement_count(sql@) == Some(1nat)),
        limit matches Some(c) ==> (parsed_statements(sql@) matches Some(ss) ==> (ss.len() == 1
            ==> (r matches Ok(s) && s@ == rendered_statement(capped_statement(ss[0], c))
            && limit_clauses(capped_statement(ss[0], c)) == limit_clauses(ss[0]).map_values(
            |cl: LimitClauseV| spec_decide(cl, c),
        )))),
        r matches Err(e) ==> e.kind == ErrorKind::SqlParse,
{
    let ceiling = match limit {
        None => {
            return Ok(sql.to_owned());
        },
        Some(c) => c,
    };
    let mut statements = match parse_sql_statements(sql) {
        Ok(v) => v,
        Err(m) => {
            return Err(CoreError::new(ErrorKind::SqlParse, m));
        },
    };
    if statements.len() != 1 {
        return Err(
            CoreError::new(ErrorKind::SqlParse, "Only one statement is allowed".to_owned()),
        );
    }
    let ghost ss = statements@;
    let mut stmt = statements.pop().unwrap();
    proof {
        assert(stmt == ss[0]);
    }
    cap_statement_limits(&mut stmt, ceiling);
    Ok(render_statement(&stmt))
}

} // verus!
