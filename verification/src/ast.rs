//! Formatting statements for display.
use vstd::prelude::*;

use crate::session::{query_kind, QueryKind};

verus! {

/// What `sqlformat::format` returns for `query`, with no query parameters, indentation by
/// `indent_spaces` spaces, keywords upper-cased when `uppercase` holds, and
/// `lines_between_queries` line breaks after each statement.
pub uninterp spec fn sql_formatted(
    query: Seq<char>,
    indent_spaces: u8,
    uppercase: bool,
    lines_between_queries: u8,
) -> Seq<char>;

/// Calls `sqlformat::format` with `QueryParams::None` and the given options (all other
/// options at their defaults). The contract claims only that the result is a function of
/// these arguments; what the formatter does with the text is not stated. With these options
/// `sqlformat::format` returns for every input.
#[verifier::external_body]
fn sqlformat_format(query: &str, indent_spaces: u8, uppercase: bool, lines_between_queries: u8)
    -> (r: String)
    ensures
        r@ == sql_formatted(query@, indent_spaces, uppercase, lines_between_queries),
{
    let options = sqlformat::FormatOptions {
        indent: sqlformat::Indent::Spaces(indent_spaces),
        uppercase: Some(uppercase),
        lines_between_queries,
        ..Default::default()
    };
    sqlformat::format(query, &sqlformat::QueryParams::None, &options)
}

/// How the shell shows a statement: `PUT` and `GET` statements as they are, every other
/// statement pretty-printed with two-space indentation, upper-case keywords and one line
/// between statements.
pub fn format_query(query: &str) -> (r: String)
    ensures
        query_kind(query@) == QueryKind::Put || query_kind(query@) == QueryKind::Get ==> r@
            == query@,
        !(query_kind(query@) == QueryKind::Put || query_kind(query@) == QueryKind::Get) ==> r@
            == sql_formatted(query@, 2, true, 1),
{
    let kind = QueryKind::from(query);
    if kind == QueryKind::Put || kind == QueryKind::Get {
        return query.to_owned();
    }
    sqlformat_format(query, 2, true, 1)
}

} // verus!
