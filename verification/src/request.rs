//! The body of a query request to the server, built step by step.
use vstd::prelude::*;

use std::collections::BTreeMap;

verus! {

/// Session settings sent with a query.
pub struct SessionConfig {
    pub database: Option<String>,
    pub settings: Option<BTreeMap<String, String>>,
}

/// How the server pages the result of a query.
pub struct PaginationConfig {
    pub wait_time_secs: Option<i64>,
    pub max_rows_in_buffer: Option<i64>,
    pub max_rows_per_page: Option<i64>,
}

/// A stage location whose files a query (an insert) reads, with its format and copy options.
pub struct StageAttachmentConfig {
    pub location: String,
    pub file_format_options: Option<BTreeMap<String, String>>,
    pub copy_options: Option<BTreeMap<String, String>>,
}

/// A query request: the SQL text and the optional session, pagination and stage parts.
pub struct QueryRequest<'a> {
    session: Option<SessionConfig>,
    sql: &'a str,
    pagination: Option<PaginationConfig>,
    stage_attachment: Option<StageAttachmentConfig>,
}

/// The parts of a query request.
pub ghost struct QueryRequestView {
    pub session: Option<SessionConfig>,
    pub sql: Seq<char>,
    pub pagination: Option<PaginationConfig>,
    pub stage_attachment: Option<StageAttachmentConfig>,
}

impl<'a> View for QueryRequest<'a> {
    type V = QueryRequestView;

    closed spec fn view(&self) -> QueryRequestView {
        QueryRequestView {
            session: self.session,
            sql: self.sql@,
            pagination: self.pagination,
            stage_attachment: self.stage_attachment,
        }
    }
}

impl<'a> QueryRequest<'a> {
    /// A request for `sql` with no session, pagination or stage parts.
    pub fn new(sql: &'a str) -> (r: QueryRequest<'a>)
        ensures
            r@ == (QueryRequestView {
                session: None,
                sql: sql@,
                pagination: None,
                stage_attachment: None,
            }),
    {
        QueryRequest { session: None, sql, pagination: None, stage_attachment: None }
    }

    /// The request with its session part set to `session`; the rest is unchanged.
    pub fn with_session(self, session: Option<SessionConfig>) -> (r: Self)
        ensures
            r@ == (QueryRequestView { session: session, ..self@ }),
    {
        QueryRequest {
            session,
            sql: self.sql,
            pagination: self.pagination,
            stage_attachment: self.stage_attachment,
        }
    }

    /// The request with its pagination part set to `pagination`; the rest is unchanged.
    pub fn with_pagination(self, pagination: Option<PaginationConfig>) -> (r: Self)
        ensures
            r@ == (QueryRequestView { pagination: pagination, ..self@ }),
    {
        QueryRequest {
            session: self.session,
            sql: self.sql,
            pagination,
            stage_attachment: self.stage_attachment,
        }
    }

    /// The request with its stage part set to `stage_attachment`; the rest is unchanged.
    pub fn with_stage_attachment(self, stage_attachment: Option<StageAttachmentConfig>) -> (r:
        Self)
        ensures
            r@ == (QueryRequestView { stage_attachment: stage_attachment, ..self@ }),
    {
        QueryRequest {
            session: self.session,
            sql: self.sql,
            pagination: self.pagination,
            stage_attachment,
        }
    }

    /// The SQL text.
    pub fn sql(&self) -> (s: &'a str)
        ensures
            s@ == self@.sql,
    {
        self.sql
    }

    /// The session part.
    pub fn session(&self) -> (s: &Option<SessionConfig>)
        ensures
            *s == self@.session,
    {
        &self.session
    }

    /// The pagination part.
    pub fn pagination(&self) -> (p: &Option<PaginationConfig>)
        ensures
            *p == self@.pagination,
    {
        &self.pagination
    }

    /// All parts, taken out of the request: session, SQL text, pagination, stage.
    pub fn into_parts(self) -> (r: (
        Option<SessionConfig>,
        &'a str,
        Option<PaginationConfig>,
        Option<StageAttachmentConfig>,
    ))
        ensures
            r.0 == self@.session,
            r.1@ == self@.sql,
            r.2 == self@.pagination,
            r.3 == self@.stage_attachment,
    {
        (self.session, self.sql, self.pagination, self.stage_attachment)
    }

    /// The stage part.
    pub fn stage_attachment(&self) -> (a: &Option<StageAttachmentConfig>)
        ensures
            *a == self@.stage_attachment,
    {
        &self.stage_attachment
    }
}

} // verus!

verus! {

/// Law: each builder step sets its own part only, so the steps can be taken in any order.
pub proof fn request_builders_commute(
    r: QueryRequestView,
    session: Option<SessionConfig>,
    pagination: Option<PaginationConfig>,
    stage_attachment: Option<StageAttachmentConfig>,
)
    ensures
        (QueryRequestView {
            pagination: pagination,
            ..(QueryRequestView { session: session, ..r })
        }) == (QueryRequestView {
            session: session,
            ..(QueryRequestView { pagination: pagination, ..r })
        }),
        (QueryRequestView {
            stage_attachment: stage_attachment,
            ..(QueryRequestView { session: session, ..r })
        }) == (QueryRequestView {
            session: session,
            ..(QueryRequestView { stage_attachment: stage_attachment, ..r })
        }),
        (QueryRequestView {
            stage_attachment: stage_attachment,
            ..(QueryRequestView { pagination: pagination, ..r })
        }) == (QueryRequestView {
            pagination: pagination,
            ..(QueryRequestView { stage_attachment: stage_attachment, ..r })
        }),
{
}

} // verus!
