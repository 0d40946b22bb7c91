use bendsql::rest_api::{
    default_copy_options, default_file_format_options, encode_csv_rows, file_format_with_type,
    load_file_options, load_options, load_stage_path, new_load_stage,
    now_timestamp_nanos, presign_sql, presigned_response_from_row, signed_epoch_time,
    QueryReply, RowPages, RowQuery, RowQueryAction, RowQueryEvent, RowQueryStage, RowStep,
    StageLoad, ExecReply, ExecStep, exec_step, version_from_row, version_sql,
};
use bendsql::options::OptionMap;
use bendsql::{connection_kind, storage_host, ConnectionKind, DriverError};

fn pairs(v: &[(&str, &str)]) -> Vec<(String, String)> {
    v.iter().map(|(k, v)| (k.to_string(), v.to_string())).collect()
}

fn omap(v: &[(&str, &str)]) -> OptionMap {
    let mut m = OptionMap::new();
    for (k, v) in v {
        m.insert(k.to_string(), v.to_string());
    }
    m
}

#[test]
fn dsn_schemes_choose_the_connection() {
    assert_eq!(
        connection_kind("databend://root:@localhost:8000/default?sslmode=disable").unwrap(),
        ConnectionKind::RestApi
    );
    assert_eq!(connection_kind("databend+https://u:p@host:443/db").unwrap(), ConnectionKind::RestApi);
    assert_eq!(connection_kind("databend+http://u:p@host/db").unwrap(), ConnectionKind::RestApi);
    match connection_kind("databend+flight://u:p@host:8900/db") {
        Err(DriverError::Parsing(m)) => assert_eq!(m, "Unsupported scheme: databend+flight"),
        other => panic!("unexpected {:?}", other),
    }
    match connection_kind("MySQL://host") {
        Err(DriverError::Parsing(m)) => assert_eq!(m, "Unsupported scheme: mysql"),
        other => panic!("unexpected {:?}", other),
    }
    assert!(matches!(connection_kind("not a dsn"), Err(DriverError::Parsing(_))));
}

#[test]
fn storage_host_of_presigned_urls() {
    assert_eq!(storage_host("https://bucket.s3.amazonaws.com/a/b?X-Amz=1").unwrap(), "bucket.s3.amazonaws.com");
    assert_eq!(storage_host("data:text/plain,hello").unwrap(), "unknown");
    assert!(matches!(storage_host("no scheme here"), Err(DriverError::Parsing(_))));
}

#[test]
fn presign_statement_and_reply() {
    assert_eq!(presign_sql("UPLOAD", "@~/bendsql/.check"), "PRESIGN UPLOAD @~/bendsql/.check");
    let r = presigned_response_from_row(Some((
        "PUT".to_string(),
        "{\"x-b\": \"2\", \"host\": \"s3\"}".to_string(),
        "https://s3/x".to_string(),
    )))
    .unwrap();
    assert_eq!(r.method, "PUT");
    assert_eq!(r.url, "https://s3/x");
    assert_eq!(r.headers.entries(), &pairs(&[("host", "s3"), ("x-b", "2")]));
    match presigned_response_from_row(None) {
        Err(DriverError::InvalidResponse(m)) => {
            assert_eq!(m, "Empty response from server for presigned request")
        }
        _ => panic!("expected an invalid response"),
    }
    assert!(matches!(
        presigned_response_from_row(Some(("GET".into(), "[1]".into(), "u".into()))),
        Err(DriverError::Parsing(_))
    ));
}

#[test]
fn load_stages_are_named_after_the_time() {
    assert_eq!(load_stage_path(Some(1700000000123456789)).unwrap(), "@~/client/load/1700000000123456789");
    assert_eq!(load_stage_path(Some(-42)).unwrap(), "@~/client/load/-42");
    assert_eq!(load_stage_path(Some(0)).unwrap(), "@~/client/load/0");
    match load_stage_path(None) {
        Err(DriverError::IO(m)) => assert_eq!(m, "Failed to get current timestamp"),
        _ => panic!("expected an I/O error"),
    }
    let p = new_load_stage().unwrap();
    assert!(p.starts_with("@~/client/load/"));
    assert!(p["@~/client/load/".len()..].chars().all(|c| c.is_ascii_digit() || c == '-'));
}

#[test]
fn load_options_default_when_missing() {
    assert_eq!(
        default_file_format_options().entries(),
        &pairs(&[("field_delimiter", ","), ("record_delimiter", "\n"), ("skip_header", "0"), ("type", "CSV")])
    );
    assert_eq!(default_copy_options().entries(), &pairs(&[("purge", "true")]));
    let (f, c) = load_options(None, Some(omap(&[("purge", "false")])));
    assert_eq!(f.entries(), default_file_format_options().entries());
    assert_eq!(c.entries(), &pairs(&[("purge", "false")]));
}

#[test]
fn file_type_comes_from_options_or_extension() {
    assert_eq!(
        file_format_with_type(omap(&[("type", "parquet")]), Some("csv".into())).unwrap().entries(),
        &pairs(&[("type", "parquet")])
    );
    assert_eq!(
        file_format_with_type(omap(&[("compression", "gzip")]), Some("csv".into())).unwrap().entries(),
        &pairs(&[("compression", "gzip"), ("type", "csv")])
    );
    match file_format_with_type(OptionMap::new(), None) {
        Err(DriverError::BadArgument(m)) => assert_eq!(m, "file type not specified"),
        _ => panic!("expected a bad argument"),
    }
    assert_eq!(load_file_options(OptionMap::new(), "/tmp/books.tsv").unwrap().entries(), &pairs(&[("type", "tsv")]));
    assert_eq!(load_file_options(OptionMap::new(), "/tmp/a.b/data.ndjson").unwrap().entries(), &pairs(&[("type", "ndjson")]));
    assert!(matches!(load_file_options(OptionMap::new(), "/tmp/README"), Err(DriverError::BadArgument(_))));
    assert!(matches!(load_file_options(OptionMap::new(), "/tmp/.hidden"), Err(DriverError::BadArgument(_))));
}

#[test]
fn stream_load_rows_become_csv() {
    let rows = vec![
        vec!["1".to_string(), "a,b".to_string()],
        vec!["2".to_string(), "say \"hi\"".to_string()],
    ];
    assert_eq!(
        String::from_utf8(encode_csv_rows(&rows).unwrap()).unwrap(),
        "1,\"a,b\"\n2,\"say \"\"hi\"\"\"\n"
    );
    let ragged = vec![vec!["1".to_string()], vec!["2".to_string(), "3".to_string()]];
    assert!(matches!(encode_csv_rows(&ragged), Err(DriverError::BadArgument(_))));
    assert_eq!(encode_csv_rows(&Vec::new()).unwrap(), Vec::<u8>::new());
}

fn row(v: &[&str]) -> Vec<String> {
    v.iter().map(|s| s.to_string()).collect()
}

#[test]
fn paged_rows_come_out_in_order() {
    let mut pages = RowPages::from_response("q1".into(), Some("/v1/query/q1/page/1".into()), vec![row(&["a"]), row(&["b"])]);
    assert!(matches!(pages.next_step(), RowStep::Row(r) if r == row(&["a"])));
    assert!(matches!(pages.next_step(), RowStep::Row(r) if r == row(&["b"])));
    match pages.next_step() {
        RowStep::FetchPage { query_id, next_uri } => {
            assert_eq!(query_id, "q1");
            assert_eq!(next_uri, "/v1/query/q1/page/1");
        }
        _ => panic!("expected a page request"),
    }
    assert!(matches!(pages.next_step(), RowStep::AwaitPage));
    pages.page_failed();
    assert!(matches!(pages.next_step(), RowStep::FetchPage { .. }));
    pages.page_arrived("q1".into(), None, vec![row(&["c"])]);
    assert!(matches!(pages.next_step(), RowStep::Row(r) if r == row(&["c"])));
    assert!(matches!(pages.next_step(), RowStep::End));
    assert!(matches!(pages.next_step(), RowStep::End));
}

#[test]
fn url_parser_messages_are_passed_on() {
    match connection_kind("not a dsn") {
        Err(DriverError::Parsing(m)) => assert_eq!(m, "relative URL without a base"),
        other => panic!("unexpected {:?}", other),
    }
    match storage_host("no scheme here") {
        Err(DriverError::Parsing(m)) => assert_eq!(m, "relative URL without a base"),
        other => panic!("unexpected {:?}", other),
    }
}

#[test]
fn extension_type_goes_in_key_order() {
    assert_eq!(
        load_file_options(omap(&[("compression", "gzip")]), "/data/books.csv").unwrap().entries(),
        &pairs(&[("compression", "gzip"), ("type", "csv")])
    );
    assert_eq!(
        load_file_options(omap(&[("z", "2"), ("a", "1")]), "x.parquet").unwrap().entries(),
        &pairs(&[("a", "1"), ("type", "parquet"), ("z", "2")])
    );
    assert_eq!(
        load_file_options(omap(&[("TYPE", "x"), ("u", "v")]), "x.tsv").unwrap().entries(),
        &pairs(&[("TYPE", "x"), ("type", "tsv"), ("u", "v")])
    );
    match load_file_options(omap(&[("compression", "gzip")]), "/data/books") {
        Err(DriverError::BadArgument(m)) => assert_eq!(m, "file type not specified"),
        _ => panic!("expected a bad argument"),
    }
    assert_eq!(
        load_file_options(omap(&[("type", "ndjson")]), "/data/books.csv").unwrap().entries(),
        &pairs(&[("type", "ndjson")])
    );
}

#[test]
fn ragged_rows_are_refused_with_the_writer_message() {
    let ragged = vec![
        vec!["1".to_string(), "a".to_string()],
        vec!["2".to_string()],
        vec!["3".to_string(), "c".to_string()],
    ];
    match encode_csv_rows(&ragged) {
        Err(DriverError::BadArgument(m)) => assert_eq!(
            m,
            "CSV error: found record with 1 fields, but the previous record has 2 fields"
        ),
        other => panic!("unexpected {:?}", other),
    }
    let one = vec![vec!["x".to_string()]];
    assert_eq!(encode_csv_rows(&one).unwrap(), b"x\n".to_vec());
}

#[test]
fn epoch_distances_become_signed_times() {
    assert_eq!(signed_epoch_time(Ok((5, 7))), Some((5, 7)));
    assert_eq!(signed_epoch_time(Err((5, 0))), Some((-5, 0)));
    assert_eq!(signed_epoch_time(Err((5, 250_000_000))), Some((-6, 750_000_000)));
    assert_eq!(signed_epoch_time(Ok((u64::MAX, 0))), None);
    assert_eq!(signed_epoch_time(Err((9223372036854775808, 0))), Some((i64::MIN, 0)));
    assert_eq!(signed_epoch_time(Err((9223372036854775808, 1))), None);
    let now = now_timestamp_nanos().unwrap();
    assert!(now > 1_600_000_000_000_000_000);
}

fn reply(id: &str, next: Option<&str>, kill: Option<&str>, schema: u8, rows: &[&[&str]]) -> QueryReply<u8> {
    QueryReply {
        id: id.to_string(),
        next_uri: next.map(|s| s.to_string()),
        kill_uri: kill.map(|s| s.to_string()),
        schema,
        data: rows.iter().map(|r| row(r)).collect(),
    }
}

#[test]
fn one_row_queries_wait_then_kill_then_take_the_first_row() {
    let mut q: RowQuery<u8> = RowQuery::new();
    let a = q.step(RowQueryEvent::First(Ok(reply("q", Some("/p/1"), None, 7, &[]))));
    assert!(matches!(a, RowQueryAction::FetchPage { ref query_id, ref next_uri } if query_id == "q" && next_uri == "/p/1"));
    let a = q.step(RowQueryEvent::Page(Ok(reply("q", Some("/p/2"), None, 0, &[]))));
    assert!(matches!(a, RowQueryAction::FetchPage { ref next_uri, .. } if next_uri == "/p/2"));
    let a = q.step(RowQueryEvent::Page(Ok(reply("q", Some("/p/3"), Some("/k"), 0, &[&["1", "a"], &["2", "b"]]))));
    assert!(matches!(a, RowQueryAction::Kill { ref query_id, ref kill_uri } if query_id == "q" && kill_uri == "/k"));
    assert_eq!(q.stage(), RowQueryStage::AwaitKill);
    match q.step(RowQueryEvent::Killed(Ok(()))) {
        RowQueryAction::Row { schema, row: r } => {
            assert_eq!(schema, 7);
            assert_eq!(r, Some(row(&["1", "a"])));
        }
        _ => panic!("expected the row"),
    }
    assert_eq!(q.stage(), RowQueryStage::Finished);

    let mut q: RowQuery<u8> = RowQuery::new();
    assert!(matches!(q.step(RowQueryEvent::First(Ok(reply("q", None, Some("/k"), 1, &[])))), RowQueryAction::Kill { .. }));
    assert!(matches!(q.step(RowQueryEvent::Killed(Ok(()))), RowQueryAction::Row { row: None, .. }));

    let mut q: RowQuery<u8> = RowQuery::new();
    match q.step(RowQueryEvent::First(Ok(reply("q", None, None, 1, &[&["1"]])))) {
        RowQueryAction::Failed(DriverError::InvalidResponse(m)) => assert_eq!(m, "kill_uri is empty"),
        _ => panic!("expected an invalid response"),
    }

    let mut q: RowQuery<u8> = RowQuery::new();
    let _ = q.step(RowQueryEvent::First(Ok(reply("q", Some("/p/1"), None, 1, &[]))));
    match q.step(RowQueryEvent::Page(Err(DriverError::IO("timeout".into())))) {
        RowQueryAction::Failed(DriverError::IO(m)) => assert_eq!(m, "timeout"),
        _ => panic!("expected the page error"),
    }
    let mut q: RowQuery<u8> = RowQuery::new();
    let _ = q.step(RowQueryEvent::First(Ok(reply("q", None, Some("/k"), 1, &[&["1"]]))));
    assert!(matches!(q.step(RowQueryEvent::Killed(Err(DriverError::IO("x".into())))), RowQueryAction::Failed(_)));
}

#[test]
fn loads_upload_first_then_insert() {
    match StageLoad::start(None, None, None) {
        Err(DriverError::IO(m)) => assert_eq!(m, "Failed to get current timestamp"),
        _ => panic!("expected an I/O error"),
    }
    let l = StageLoad::start(Some(42), None, Some(omap(&[("purge", "false")]))).unwrap();
    assert_eq!(l.upload_stage(), "@~/client/load/42");
    match l.after_upload(Err(DriverError::IO("upload failed".into()))) {
        Err(DriverError::IO(m)) => assert_eq!(m, "upload failed"),
        _ => panic!("expected the upload error"),
    }
    let l = StageLoad::start(Some(42), None, Some(omap(&[("purge", "false")]))).unwrap();
    let i = l.after_upload(Ok(())).unwrap();
    assert_eq!(i.stage, "@~/client/load/42");
    assert_eq!(i.file_format_options.entries(), default_file_format_options().entries());
    assert_eq!(i.copy_options.entries(), &pairs(&[("purge", "false")]));
}

#[test]
fn options_keep_unique_keys_in_order() {
    let mut m = omap(&[("skip_header", "1"), ("field_delimiter", "|"), ("type", "csv")]);
    assert_eq!(m.entries(), &pairs(&[("field_delimiter", "|"), ("skip_header", "1"), ("type", "csv")]));
    m.insert("field_delimiter".into(), ",".into());
    assert_eq!(m.entries(), &pairs(&[("field_delimiter", ","), ("skip_header", "1"), ("type", "csv")]));
    assert!(m.contains_key("type"));
    assert!(!m.contains_key("typ"));
    m.insert("".into(), "e".into());
    assert_eq!(m.entries()[0], ("".to_string(), "e".to_string()));
    assert_eq!(m.entries().len(), 4);
}

#[test]
fn pages_chain_until_the_last() {
    let mut pages = RowPages::from_response("q".into(), Some("/p/1".into()), vec![row(&["a"])]);
    assert!(matches!(pages.next_step(), RowStep::Row(r) if r == row(&["a"])));
    assert!(matches!(pages.next_step(), RowStep::FetchPage { .. }));
    pages.page_arrived("q".into(), Some("/p/2".into()), Vec::new());
    assert!(matches!(pages.next_step(), RowStep::FetchPage { next_uri, .. } if next_uri == "/p/2"));
    pages.page_arrived("q".into(), None, vec![row(&["b"]), row(&["c"])]);
    assert!(matches!(pages.next_step(), RowStep::Row(r) if r == row(&["b"])));
    assert!(matches!(pages.next_step(), RowStep::Row(r) if r == row(&["c"])));
    assert!(matches!(pages.next_step(), RowStep::End));
}

#[test]
fn statements_follow_pages_then_report_written_rows() {
    let r = ExecReply { id: "q".into(), next_uri: Some("/p/1".into()), written_rows: 0 };
    assert!(matches!(exec_step(Ok(r)), ExecStep::FetchPage { ref query_id, ref next_uri } if query_id == "q" && next_uri == "/p/1"));
    let r = ExecReply { id: "q".into(), next_uri: None, written_rows: 12 };
    assert!(matches!(exec_step(Ok(r)), ExecStep::Done(12)));
    assert!(matches!(exec_step(Err(DriverError::IO("down".into()))), ExecStep::Failed(DriverError::IO(m)) if m == "down"));
}

#[test]
fn server_version_comes_from_one_row() {
    assert_eq!(version_sql(), "SELECT version()");
    assert_eq!(version_from_row(Ok(Some(Ok("v1.2.3".into())))).unwrap(), "v1.2.3");
    assert_eq!(version_from_row(Ok(None)).unwrap(), "");
    assert!(matches!(version_from_row(Ok(Some(Err(DriverError::Parsing("bad".into()))))), Err(DriverError::Parsing(_))));
    assert!(matches!(version_from_row(Err(DriverError::IO("x".into()))), Err(DriverError::IO(_))));
}
