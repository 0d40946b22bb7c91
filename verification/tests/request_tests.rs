use std::collections::BTreeMap;

use bendsql::{PaginationConfig, QueryRequest, SessionConfig, StageAttachmentConfig};

#[test]
fn build_request_sets_each_part() {
    let req = QueryRequest::new("select 1")
        .with_session(Some(SessionConfig {
            database: Some("default".to_string()),
            settings: Some(BTreeMap::new()),
        }))
        .with_pagination(Some(PaginationConfig {
            wait_time_secs: Some(1),
            max_rows_in_buffer: Some(1),
            max_rows_per_page: Some(1),
        }))
        .with_stage_attachment(Some(StageAttachmentConfig {
            location: "@~/my_location".into(),
            file_format_options: None,
            copy_options: None,
        }));
    assert_eq!(req.sql(), "select 1");
    let session = req.session().as_ref().unwrap();
    assert_eq!(session.database.as_deref(), Some("default"));
    assert_eq!(session.settings.as_ref().map(|m| m.len()), Some(0));
    let p = req.pagination().as_ref().unwrap();
    assert_eq!((p.wait_time_secs, p.max_rows_in_buffer, p.max_rows_per_page), (Some(1), Some(1), Some(1)));
    let a = req.stage_attachment().as_ref().unwrap();
    assert_eq!(a.location, "@~/my_location");
    assert!(a.file_format_options.is_none() && a.copy_options.is_none());
}

#[test]
fn new_request_has_only_sql() {
    let req = QueryRequest::new("select 2");
    assert_eq!(req.sql(), "select 2");
    assert!(req.session().is_none());
    assert!(req.pagination().is_none());
    assert!(req.stage_attachment().is_none());
    let req = req.with_pagination(None).with_session(None);
    assert!(req.pagination().is_none() && req.session().is_none());
}
