use bendsql::session::{after_reconnect, after_retry, RetryAction};
use bendsql::check::{CheckAction, CheckEvent, CheckLine, CheckNext, CheckStage, CheckState, LicenseRow};
use bendsql::session::ReadFailure;
use bendsql::session::{QueryPlan, QueryOutcome, ReplAction};
use bendsql::{
    format_query, get_put_get_args, needs_reconnect, replace_newline_in_box_display,
    ConnectionInfo, QueryKind, Session,
};

fn append(s: &mut Session, line: &str) -> Vec<String> {
    s.append_query(line)
}

#[test]
fn query_kind_from_first_token() {
    assert_eq!(QueryKind::from("select 1"), QueryKind::Query);
    assert_eq!(QueryKind::from("insert into t values (1)"), QueryKind::Update);
    assert_eq!(QueryKind::from("Create table t(a int)"), QueryKind::Update);
    assert_eq!(QueryKind::from("DROP table t"), QueryKind::Update);
    assert_eq!(QueryKind::from("optimize table t"), QueryKind::Update);
    assert_eq!(QueryKind::from("EXPLAIN select 1"), QueryKind::Explain);
    assert_eq!(QueryKind::from("put fs:///tmp/a.csv @~/a"), QueryKind::Put);
    assert_eq!(QueryKind::from("GET @~/a fs:///tmp/"), QueryKind::Get);
    assert_eq!(QueryKind::from("   update t set a = 1"), QueryKind::Update);
    assert_eq!(QueryKind::from(""), QueryKind::Query);
    assert_eq!(QueryKind::from("-- insert\ninsert into t"), QueryKind::Query);
    assert_eq!(QueryKind::from("inserted"), QueryKind::Query);
    assert_eq!(QueryKind::from("\u{e9}t\u{e9}"), QueryKind::Query);
}

#[test]
fn replace_newline_depends_on_statement() {
    assert!(!replace_newline_in_box_display("explain select 1"));
    assert!(!replace_newline_in_box_display("show create table t"));
    assert!(replace_newline_in_box_display("show tables"));
    assert!(replace_newline_in_box_display("select 1"));
    assert!(replace_newline_in_box_display(""));
}

#[test]
fn put_get_args_split_at_ascii_whitespace() {
    assert_eq!(
        get_put_get_args("put  fs:///tmp/a.csv\t@~/stage "),
        vec!["put", "fs:///tmp/a.csv", "@~/stage"]
    );
    assert_eq!(get_put_get_args("   "), Vec::<String>::new());
}

#[test]
fn multi_line_statements_are_joined_and_split_at_semicolons() {
    let mut s = Session::new(true, true);
    assert_eq!(append(&mut s, "select 1"), Vec::<String>::new());
    assert_eq!(append(&mut s, "from t;"), vec!["select 1 from t;"]);
    assert_eq!(append(&mut s, "select 1; select 2;"), vec!["select 1;", "select 2;"]);
    assert_eq!(s.pending(), "");
}

#[test]
fn semicolons_in_strings_and_comments_do_not_split() {
    let mut s = Session::new(true, true);
    assert_eq!(append(&mut s, "select 'a;b';"), vec!["select 'a;b';"]);
    assert_eq!(append(&mut s, "select 1 -- c;"), Vec::<String>::new());
    assert_eq!(s.take_pending_query(), Some("select 1".to_string()));
    assert_eq!(s.take_pending_query(), None);
    assert_eq!(append(&mut s, "select /* x; */ 1;"), vec!["select/* x; */ 1;"]);
}

#[test]
fn comment_blocks_span_lines() {
    let mut s = Session::new(true, true);
    assert_eq!(append(&mut s, "select 1 /* a;"), Vec::<String>::new());
    assert_eq!(append(&mut s, "b; */ ;"), vec!["select 1/* a; b; */;"]);
}

#[test]
fn shell_lines_pass_through_whole() {
    let mut s = Session::new(true, true);
    assert_eq!(append(&mut s, "  .multi_line false  "), vec![".multi_line false"]);
    assert_eq!(append(&mut s, "exit"), vec!["exit"]);
    assert_eq!(append(&mut s, "PuT fs:///a @~/b"), vec!["PuT fs:///a @~/b"]);
    assert_eq!(append(&mut s, "   "), Vec::<String>::new());
}

#[test]
fn single_line_mode_keeps_lines_whole() {
    let mut s = Session::new(false, true);
    assert_eq!(append(&mut s, "-- only a comment"), Vec::<String>::new());
    assert_eq!(append(&mut s, " select 1; select 2 "), vec!["select 1; select 2"]);
    assert_eq!(s.pending(), "");
}

#[test]
fn leading_semicolons_stay_with_the_next_statement() {
    let mut s = Session::new(true, true);
    assert_eq!(append(&mut s, ";;select 1;"), vec![";;select 1;"]);
}

#[test]
fn unknown_characters_stop_the_tokenizer() {
    let mut s = Session::new(true, true);
    assert_eq!(append(&mut s, "select 1 \u{e9}; select 2;"), Vec::<String>::new());
    assert_eq!(s.take_pending_query(), Some("select 1".to_string()));
}

fn plan_tag(p: &QueryPlan) -> (String, Vec<String>, bool) {
    match p {
        QueryPlan::Exit => ("exit".into(), vec![], false),
        QueryPlan::ControlCommand { name, value } => ("ctrl".into(), vec![name.clone(), value.clone()], false),
        QueryPlan::ControlCommandError => ("ctrl_err".into(), vec![], false),
        QueryPlan::Exec { query } => ("exec".into(), vec![query.clone()], false),
        QueryPlan::PutFiles { query, src, dst, replace_newline } => ("put".into(), vec![query.clone(), src.clone(), dst.clone()], *replace_newline),
        QueryPlan::GetFiles { query, src, dst, replace_newline } => ("get".into(), vec![query.clone(), src.clone(), dst.clone()], *replace_newline),
        QueryPlan::InvalidPutGetArgs => ("bad_args".into(), vec![], false),
        QueryPlan::Query { query, replace_newline } => ("query".into(), vec![query.clone()], *replace_newline),
    }
}

#[test]
fn handle_query_plans_statements() {
    let s = Session::new(true, true);
    assert_eq!(plan_tag(&s.handle_query(true, "exit;")).0, "exit");
    assert_eq!(plan_tag(&s.handle_query(true, " quit ")).0, "exit");
    assert_eq!(plan_tag(&s.handle_query(false, "exit")), ("query".to_string(), vec!["exit".to_string()], true));
    assert_eq!(
        plan_tag(&s.handle_query(true, ".max_display_rows 10;")),
        ("ctrl".to_string(), vec!["max_display_rows".to_string(), "10".to_string()], false)
    );
    assert_eq!(plan_tag(&s.handle_query(true, ".show")).0, "ctrl_err");
    assert_eq!(
        plan_tag(&s.handle_query(false, "insert into t values (1);;")),
        ("exec".to_string(), vec!["insert into t values (1)".to_string()], false)
    );
    assert_eq!(
        plan_tag(&s.handle_query(true, "insert into t values (1);")),
        ("query".to_string(), vec!["insert into t values (1)".to_string()], true)
    );
    assert_eq!(
        plan_tag(&s.handle_query(true, "put fs:///tmp/a.csv @~/a;")),
        (
            "put".to_string(),
            vec!["put fs:///tmp/a.csv @~/a".to_string(), "fs:///tmp/a.csv".to_string(), "@~/a".to_string()],
            true
        )
    );
    assert_eq!(plan_tag(&s.handle_query(true, "get @~/a")).0, "bad_args");
    assert_eq!(
        plan_tag(&s.handle_query(true, "select 1;")),
        ("query".to_string(), vec!["select 1".to_string()], true)
    );
    assert_eq!(
        plan_tag(&s.handle_query(true, "explain select 1")),
        ("query".to_string(), vec!["explain select 1".to_string()], true)
    );
    let plain = Session::new(true, false);
    assert!(!plan_tag(&plain.handle_query(true, "select 1")).2);
    assert!(plan_tag(&plain.handle_query(true, "explain select 1")).2);
    assert!(plan_tag(&plain.handle_query(true, "show create table t")).2);
}

fn info(database: Option<&str>, warehouse: Option<&str>) -> ConnectionInfo {
    ConnectionInfo {
        handler: "RestAPI".to_string(),
        host: "localhost".to_string(),
        port: 8000,
        user: "root".to_string(),
        database: database.map(|d| d.to_string()),
        warehouse: warehouse.map(|w| w.to_string()),
    }
}

#[test]
fn prompt_renders_the_template() {
    let mut s = Session::new(true, true);
    let t = "{user}@{host}:{port}/{database} {warehouse}   ";
    assert_eq!(s.prompt(&info(None, None), t), "root@localhost:8000/default localhost:8000 ");
    assert_eq!(s.prompt(&info(Some("db1"), Some("wh")), t), "root@localhost:8000/db1 (wh) ");
    assert_eq!(s.prompt(&info(None, None), "bendsql>"), "bendsql> ");
    let _ = s.append_query("select 1");
    assert_eq!(s.prompt(&info(None, None), t), "> ");
}

#[test]
fn reconnect_only_on_unauthenticated_errors() {
    assert!(needs_reconnect("http error: Unauthenticated: token expired"));
    assert!(!needs_reconnect("unauthenticated"));
    let mut s = Session::new(true, true);
    let _ = s.append_query("select 1");
    assert_eq!(s.after_query(&QueryOutcome::Failed("code 401 Unauthenticated".into())), ReplAction::Reconnect);
    assert_eq!(s.pending(), " select 1");
    assert_eq!(s.after_query(&QueryOutcome::Failed("syntax error".into())), ReplAction::Stop);
    assert_eq!(s.pending(), "");
    assert_eq!(s.after_query(&QueryOutcome::Done), ReplAction::Continue);
    assert_eq!(s.after_query(&QueryOutcome::Exit), ReplAction::Exit);
}

#[test]
fn format_query_pretty_prints_except_put_and_get() {
    assert_eq!(format_query("select a, b from t where a = 1"), "SELECT\n  a,\n  b\nFROM\n  t\nWHERE\n  a = 1");
    assert_eq!(format_query("put fs:///a @~/b"), "put fs:///a @~/b");
    assert_eq!(format_query("get @~/b fs:///a"), "get @~/b fs:///a");
}

#[test]
fn stdin_is_spooled_to_a_timestamped_file() {
    assert_eq!(bendsql::session::stdin_spool_name(Some(1700000000000000001)), Some("bendsql_1700000000000000001".to_string()));
    assert_eq!(bendsql::session::stdin_spool_name(None), None);
}

#[test]
fn read_failures_end_the_shell_only_at_end_of_input() {
    let mut s = Session::new(true, true);
    let _ = s.append_query("select 1");
    assert_eq!(s.after_read_failure(&ReadFailure::Io("broken pipe".into())), ReplAction::Continue);
    assert_eq!(s.pending(), " select 1");
    assert_eq!(s.after_read_failure(&ReadFailure::Other), ReplAction::Continue);
    assert_eq!(s.after_read_failure(&ReadFailure::Interrupted), ReplAction::Continue);
    assert_eq!(s.pending(), "");
    assert_eq!(s.after_read_failure(&ReadFailure::Eof), ReplAction::Exit);
}

#[test]
fn whole_inputs_split_into_statements() {
    let mut s = Session::new(true, true);
    let lines: Vec<String> = vec![
        "select 1; select".to_string(),
        "2;".to_string(),
        "".to_string(),
        "select 3".to_string(),
    ];
    assert_eq!(s.statements_of_lines(&lines), vec!["select 1;", "select 2;", "select 3"]);
    assert_eq!(s.pending(), "");
    let mut t = Session::new(true, true);
    assert_eq!(t.statements_of_lines(&vec!["  ".to_string()]), Vec::<String>::new());
    assert_eq!(t.statements_of_lines(&Vec::new()), Vec::<String>::new());
}

#[test]
fn check_reports_in_order() {
    let mut c = CheckState::new();
    let a: CheckAction = c.step(CheckEvent::Start(info(Some("db1"), Some("wh"))));
    assert_eq!(a.lines.len(), 3);
    assert!(matches!(&a.lines[0], CheckLine::Connection { host, port: 8000, .. } if host == "localhost"));
    assert!(matches!(&a.lines[1], CheckLine::Warehouse(w) if w == "wh"));
    assert!(matches!(&a.lines[2], CheckLine::Database(Some(d)) if d == "db1"));
    assert!(matches!(a.next, CheckNext::FetchServerVersion));
    let a = c.step(CheckEvent::ServerVersion(Ok("v1.2.3".into())));
    assert!(matches!(&a.lines[..], [CheckLine::ServerVersion(v)] if v == "v1.2.3"));
    assert!(matches!(a.next, CheckNext::QueryLicense));
    let row = LicenseRow {
        issuer: "databend".into(),
        license_type: "enterprise".into(),
        organization: "acme".into(),
        issued_at: "2024-01-01".into(),
        expire_at: "2025-01-01".into(),
        expire_at_secs: 1735689600,
        expire_at_nanos: 0,
    };
    let a = c.step(CheckEvent::LicenseRow(row, 1800000000, 0));
    assert!(matches!(&a.lines[..], [CheckLine::LicenseExpired(t)] if t == "2025-01-01"));
    assert!(matches!(&a.next, CheckNext::PresignUpload { operation, stage }
        if operation == "UPLOAD" && stage == "@~/bendsql/.check"));
    let a = c.step(CheckEvent::Presign(
        Some("https://bucket.s3.amazonaws.com/x?sig=1".into()),
        Some("2024-05-01T10:00:00.5+00:00".into()),
    ));
    assert!(a.lines.is_empty());
    assert!(matches!(&a.next, CheckNext::Upload { stage, data }
        if stage == "@~/bendsql/.check" && data == "2024-05-01T10:00:00.5+00:00"));
    assert_eq!(c.stage, CheckStage::AwaitUpload);
    let a = c.step(CheckEvent::Upload(Ok(())));
    assert!(matches!(&a.lines[..], [CheckLine::StorageOk(h)] if h == "bucket.s3.amazonaws.com"));
    assert!(matches!(a.next, CheckNext::Done(Ok(()))));
    assert_eq!(c.stage, CheckStage::Finished);

    let mut c = CheckState::new();
    let _ = c.step(CheckEvent::Start(info(None, None)));
    let a = c.step(CheckEvent::ServerVersion(Err("connection refused".into())));
    assert!(a.lines.is_empty());
    assert!(matches!(&a.next, CheckNext::Done(Err(m)) if m == "connection refused"));

    let mut c = CheckState::new();
    let a = c.step(CheckEvent::Start(info(None, None)));
    assert!(matches!(&a.lines[..], [CheckLine::Connection { .. }, CheckLine::Database(None)]));
    let _ = c.step(CheckEvent::ServerVersion(Ok("v".into())));
    let a = c.step(CheckEvent::LicenseUnavailable);
    assert!(matches!(&a.lines[..], [CheckLine::LicenseUnavailable]));
    let a = c.step(CheckEvent::Presign(None, Some("t".into())));
    assert!(matches!(&a.lines[..], [CheckLine::PresignUnsupported]));
    assert!(matches!(a.next, CheckNext::Done(Ok(()))));
}

#[test]
fn rest_api_connections_report_their_endpoint() {
    let i = ConnectionInfo::rest_api("h".into(), 8001, "u".into(), Some("db".into()), None);
    assert_eq!(i.handler, "RestAPI");
    assert_eq!(i.host, "h");
    assert_eq!(i.port, 8001);
    assert_eq!(i.user, "u");
    assert_eq!(i.database, Some("db".to_string()));
    assert_eq!(i.warehouse, None);
}

#[test]
fn license_expiry_is_compared_to_the_nanosecond() {
    let row = |ns: u32| LicenseRow {
        issuer: "i".into(),
        license_type: "t".into(),
        organization: "o".into(),
        issued_at: "a".into(),
        expire_at: "e".into(),
        expire_at_secs: 100,
        expire_at_nanos: ns,
    };
    let license_after = |r: LicenseRow, s: i64, ns: u32| {
        let mut c = CheckState::new();
        let _ = c.step(CheckEvent::Start(info(None, None)));
        let _ = c.step(CheckEvent::ServerVersion(Ok("v".into())));
        c.step(CheckEvent::LicenseRow(r, s, ns))
    };
    assert!(matches!(&license_after(row(500), 100, 400).lines[..], [CheckLine::License { .. }]));
    assert!(matches!(&license_after(row(500), 100, 500).lines[..], [CheckLine::License { .. }]));
    assert!(matches!(&license_after(row(500), 100, 501).lines[..], [CheckLine::LicenseExpired(_)]));
    assert!(matches!(&license_after(row(0), 101, 0).lines[..], [CheckLine::LicenseExpired(_)]));
    let mut c = CheckState::new();
    let _ = c.step(CheckEvent::Start(info(None, None)));
    let _ = c.step(CheckEvent::ServerVersion(Ok("v".into())));
    let _ = c.step(CheckEvent::LicenseUnavailable);
    let a = c.step(CheckEvent::Presign(Some("https://h/x".into()), None));
    assert!(matches!(&a.next, CheckNext::Done(Err(m)) if m == "Failed to get current timestamp"));
    let t = bendsql::check::now_rfc3339().unwrap();
    assert!(t.ends_with("+00:00") && t.as_bytes()[4] == b'-' && t.as_bytes()[10] == b'T');
}

#[test]
fn expired_logins_are_retried_once() {

    assert!(matches!(after_reconnect(&Ok(())), RetryAction::Retry));
    assert!(matches!(after_reconnect(&Err("refused".into())), RetryAction::Report(m) if m == "reconnect error: refused"));
    assert!(matches!(after_retry(&QueryOutcome::Failed("boom".into())), RetryAction::Report(m) if m == "error: boom"));
    assert!(matches!(after_retry(&QueryOutcome::Done), RetryAction::Continue));
    assert!(matches!(after_retry(&QueryOutcome::Exit), RetryAction::Continue));
}
