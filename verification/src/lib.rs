//! The logic of the Databend SQL shell and client, verified: the SQL
//! tokenizer, splitting input into statements, classifying and planning
//! statements, the prompt, query requests, connection kinds, and the
//! request-side logic of the HTTP query API (presigned URLs, load stages and
//! options, CSV payloads, paging through results).
use vstd::prelude::*;

pub mod ast;
pub mod check;
pub mod conn;
pub mod error;
pub mod options;
pub mod request;
pub mod rest_api;
pub mod session;
pub mod text;
pub mod tokenizer;

pub use ast::format_query;
pub use conn::{connection_kind, storage_host, ConnectionInfo, ConnectionKind};
pub use error::DriverError;
pub use request::{PaginationConfig, QueryRequest, SessionConfig, StageAttachmentConfig};
pub use session::{
    get_put_get_args, needs_reconnect, replace_newline_in_box_display, QueryKind, QueryOutcome,
    QueryPlan, ReadFailure, ReplAction, Session,
};

verus! {
} // verus!
