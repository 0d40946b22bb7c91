//! The decisions of the shell's `check` command, which reports on the connection, the server
//! version, the license and the backend storage. The caller performs each request that a step
//! asks for, feeds its result back as the next event, and prints the report lines.
use vstd::prelude::*;

use crate::conn::{seq_unknown, storage_host, url_error_text, url_host, ConnectionInfo};
use crate::error::DriverError;
use crate::rest_api::{seq_timestamp_failure, signed_epoch_time, time_since_epoch};
use crate::text::string_of;

verus! {

/// The license as the server reports it; the times as display text, and the expiry also as
/// Unix seconds and nanoseconds within the second.
pub struct LicenseRow {
    pub issuer: String,
    pub license_type: String,
    pub organization: String,
    pub issued_at: String,
    pub expire_at: String,
    pub expire_at_secs: i64,
    pub expire_at_nanos: u32,
}

/// A line of the check report.
pub enum CheckLine {
    /// The handler, endpoint and user being checked.
    Connection { handler: String, host: String, port: u16, user: String },
    /// The cloud warehouse in use.
    Warehouse(String),
    /// The current database (none set: the default one).
    Database(Option<String>),
    /// The server's version.
    ServerVersion(String),
    /// A warning: the license expired at this time.
    LicenseExpired(String),
    /// The license: type, issuer, organization, validity.
    License { license_type: String, issuer: String, organization: String, from: String, to: String },
    /// A warning: no license, only community features.
    LicenseUnavailable,
    /// A warning: the storage does not support presigned URLs.
    PresignUnsupported,
    /// An error: uploading to the storage failed with this message.
    UploadFailed(String),
    /// The storage works; its host.
    StorageOk(String),
}

/// The request the caller performs next, or the end of the check with its result.
pub enum CheckNext {
    FetchServerVersion,
    QueryLicense,
    /// Ask the storage for a presigned URL for `operation` on the stage file `stage`.
    PresignUpload { operation: String, stage: String },
    /// Upload to the stage file `stage` the UTF-8 bytes of `data` (their number is the size).
    Upload { stage: String, data: String },
    Done(Result<(), String>),
}

/// What a check step asks of the caller: lines to report, then the next request.
pub struct CheckAction {
    pub lines: Vec<CheckLine>,
    pub next: CheckNext,
}

/// A result fed back to the check.
pub enum CheckEvent {
    /// The check starts with the connection's information.
    Start(ConnectionInfo),
    /// The server version, or the error that fetching it failed with.
    ServerVersion(Result<String, String>),
    /// The license query failed.
    LicenseUnavailable,
    /// The license row could not be read; the message says why.
    LicenseUnreadable(String),
    /// The license row, and the current time as Unix seconds and nanoseconds.
    LicenseRow(LicenseRow, i64, u32),
    /// The presigned upload URL if the storage gave one, and the current time as RFC 3339
    /// text if the clock gave one.
    Presign(Option<String>, Option<String>),
    /// The upload through the presigned URL succeeded, or failed with this message.
    Upload(Result<(), String>),
}

/// Where the check stands: which result it waits for.
#[derive(Clone, Copy, PartialEq, Eq, Structural, Debug)]
pub enum CheckStage {
    Start,
    AwaitServerVersion,
    AwaitLicense,
    AwaitPresign,
    AwaitUpload,
    Finished,
}

/// The check's state: its stage and, while the upload is awaited, the presigned URL.
pub struct CheckState {
    pub stage: CheckStage,
    pub url: Option<String>,
}

/// The event fits the stage.
pub open spec fn fits(stage: CheckStage, e: CheckEvent) -> bool {
    match e {
        CheckEvent::Start(_) => stage == CheckStage::Start,
        CheckEvent::ServerVersion(_) => stage == CheckStage::AwaitServerVersion,
        CheckEvent::LicenseUnavailable => stage == CheckStage::AwaitLicense,
        CheckEvent::LicenseUnreadable(_) => stage == CheckStage::AwaitLicense,
        CheckEvent::LicenseRow(_, _, _) => stage == CheckStage::AwaitLicense,
        CheckEvent::Presign(_, _) => stage == CheckStage::AwaitPresign,
        CheckEvent::Upload(_) => stage == CheckStage::AwaitUpload,
    }
}

/// The lines that start the report: the connection, the warehouse if one is used, and the
/// current database.
pub open spec fn start_lines(info: ConnectionInfo) -> Seq<CheckLine> {
    seq![CheckLine::Connection { handler: info.handler, host: info.host, port: info.port, user: info.user }]
        + match info.warehouse {
        Some(w) => seq![CheckLine::Warehouse(w)],
        None => Seq::<CheckLine>::empty(),
    } + seq![CheckLine::Database(info.database)]
}

/// The time `(secs, nanos)` comes after the time `(secs2, nanos2)`.
pub open spec fn time_after(secs: i64, nanos: u32, secs2: i64, nanos2: u32) -> bool {
    secs > secs2 || (secs == secs2 && nanos > nanos2)
}

/// The stage file that the check uploads to: `@~/bendsql/.check`.
pub open spec fn seq_check_stage() -> Seq<char> {
    seq!['@', '~', '/', 'b', 'e', 'n', 'd', 's', 'q', 'l', '/', '.', 'c', 'h', 'e', 'c', 'k']
}

pub open spec fn seq_upload() -> Seq<char> {
    seq!['U', 'P', 'L', 'O', 'A', 'D']
}

/// The request for a presigned upload URL for the check's stage file.
pub open spec fn is_presign_check(n: CheckNext) -> bool {
    n matches CheckNext::PresignUpload { operation, stage } && operation@ == seq_upload()
        && stage@ == seq_check_stage()
}

fn presign_check() -> (n: CheckNext)
    ensures
        is_presign_check(n),
{
    let op = ['U', 'P', 'L', 'O', 'A', 'D'];
    let st = ['@', '~', '/', 'b', 'e', 'n', 'd', 's', 'q', 'l', '/', '.', 'c', 'h', 'e', 'c', 'k'];
    assert(op@ == seq_upload());
    assert(st@ == seq_check_stage());
    CheckNext::PresignUpload { operation: string_of(&op), stage: string_of(&st) }
}

/// The license line: a warning when the license expired before `now` (compared to the
/// nanosecond), else its description.
pub open spec fn license_line(row: LicenseRow, now_secs: i64, now_nanos: u32) -> CheckLine {
    if time_after(now_secs, now_nanos, row.expire_at_secs, row.expire_at_nanos) {
        CheckLine::LicenseExpired(row.expire_at)
    } else {
        CheckLine::License {
            license_type: row.license_type,
            issuer: row.issuer,
            organization: row.organization,
            from: row.issued_at,
            to: row.expire_at,
        }
    }
}

impl CheckState {
    pub fn new() -> (s: CheckState)
        ensures
            s.stage == CheckStage::Start,
            s.url is None,
    {
        CheckState { stage: CheckStage::Start, url: None }
    }

    /// One step of the check. In order it reports the connection, asks for the server version
    /// (a failure ends the check with that error), reports the version and asks for the
    /// license; reports the license (expired or not, by the current time) or that there is
    /// none (an unreadable license row ends the check with that error); asks for a presigned
    /// upload URL; without one it warns and ends; with one it asks for the upload, after which
    /// a failed upload is reported and a successful one reports the storage host (a URL the
    /// parser rejects ends the check with the parser's message). A check that ended succeeds
    /// unless said otherwise.
    pub fn step(&mut self, e: CheckEvent) -> (a: CheckAction)
        requires
            fits(old(self).stage, e),
            old(self).stage == CheckStage::AwaitUpload ==> old(self).url is Some,
        ensures
            final(self).stage == CheckStage::AwaitUpload ==> final(self).url is Some,
            e matches CheckEvent::Start(info) ==> final(self).stage == CheckStage::AwaitServerVersion
                && a.lines@ == start_lines(info) && a.next is FetchServerVersion,
            e matches CheckEvent::ServerVersion(Err(m)) ==> final(self).stage == CheckStage::Finished
                && a.lines@.len() == 0 && a.next == CheckNext::Done(Err(m)),
            e matches CheckEvent::ServerVersion(Ok(v)) ==> final(self).stage
                == CheckStage::AwaitLicense && a.lines@ == seq![CheckLine::ServerVersion(v)]
                && a.next is QueryLicense,
            e is LicenseUnavailable ==> final(self).stage == CheckStage::AwaitPresign && a.lines@
                == seq![CheckLine::LicenseUnavailable] && is_presign_check(a.next),
            e matches CheckEvent::LicenseUnreadable(m) ==> final(self).stage == CheckStage::Finished
                && a.lines@.len() == 0 && a.next == CheckNext::Done(Err(m)),
            e matches CheckEvent::LicenseRow(row, now_s, now_ns) ==> final(self).stage
                == CheckStage::AwaitPresign && a.lines@ == seq![license_line(row, now_s, now_ns)]
                && is_presign_check(a.next),
            e matches CheckEvent::Presign(None, _) ==> final(self).stage == CheckStage::Finished
                && a.lines@ == seq![CheckLine::PresignUnsupported] && a.next == CheckNext::Done(
                Ok(()),
            ),
            e matches CheckEvent::Presign(Some(u), Some(t)) ==> final(self).stage
                == CheckStage::AwaitUpload && final(self).url == Some(u) && a.lines@.len() == 0 && (
            a.next matches CheckNext::Upload { stage, data } && stage@ == seq_check_stage() && data
                == t),
            e matches CheckEvent::Presign(Some(_), None) ==> final(self).stage == CheckStage::Finished
                && a.lines@.len() == 0 && (a.next matches CheckNext::Done(Err(m)) && m@
                == seq_timestamp_failure()),
            e matches CheckEvent::Upload(Err(m)) ==> final(self).stage == CheckStage::Finished
                && a.lines@ == seq![CheckLine::UploadFailed(m)] && a.next == CheckNext::Done(Ok(())),
            e matches CheckEvent::Upload(Ok(())) ==> final(self).stage == CheckStage::Finished,
            e matches CheckEvent::Upload(Ok(())) ==> (url_host(old(self).url->0@) is None ==> (
            a.lines@.len() == 0 && (a.next matches CheckNext::Done(Err(m)) && m@ == url_error_text(
                old(self).url->0@,
            )))),
            e matches CheckEvent::Upload(Ok(())) ==> (url_host(old(self).url->0@) matches Some(h)
                ==> (a.next == CheckNext::Done(Ok(())) && a.lines@.len() == 1 && (a.lines@[0] matches CheckLine::StorageOk(s)
                && s@ == match h {
                Some(x) => x,
                None => seq_unknown(),
            }))),
    {
        match e {
            CheckEvent::Start(info) => {
                self.stage = CheckStage::AwaitServerVersion;
                self.url = None;
                let mut lines: Vec<CheckLine> = Vec::new();
                let ghost i0 = info;
                let ConnectionInfo { handler, host, port, user, database, warehouse } = info;
                lines.push(CheckLine::Connection { handler, host, port, user });
                match warehouse {
                    Some(w) => lines.push(CheckLine::Warehouse(w)),
                    None => {},
                }
                lines.push(CheckLine::Database(database));
                assert(lines@ =~= start_lines(i0));
                CheckAction { lines, next: CheckNext::FetchServerVersion }
            },
            CheckEvent::ServerVersion(Err(m)) => {
                self.stage = CheckStage::Finished;
                CheckAction { lines: Vec::new(), next: CheckNext::Done(Err(m)) }
            },
            CheckEvent::ServerVersion(Ok(v)) => {
                self.stage = CheckStage::AwaitLicense;
                let mut lines: Vec<CheckLine> = Vec::new();
                lines.push(CheckLine::ServerVersion(v));
                assert(lines@ =~= seq![CheckLine::ServerVersion(v)]);
                CheckAction { lines, next: CheckNext::QueryLicense }
            },
            CheckEvent::LicenseUnavailable => {
                self.stage = CheckStage::AwaitPresign;
                let mut lines: Vec<CheckLine> = Vec::new();
                lines.push(CheckLine::LicenseUnavailable);
                assert(lines@ =~= seq![CheckLine::LicenseUnavailable]);
                CheckAction { lines, next: presign_check() }
            },
            CheckEvent::LicenseUnreadable(m) => {
                self.stage = CheckStage::Finished;
                CheckAction { lines: Vec::new(), next: CheckNext::Done(Err(m)) }
            },
            CheckEvent::LicenseRow(row, now_s, now_ns) => {
                self.stage = CheckStage::AwaitPresign;
                let ghost r0 = row;
                let line = if now_s > row.expire_at_secs || (now_s == row.expire_at_secs && now_ns
                    > row.expire_at_nanos) {
                    CheckLine::LicenseExpired(row.expire_at)
                } else {
                    CheckLine::License {
                        license_type: row.license_type,
                        issuer: row.issuer,
                        organization: row.organization,
                        from: row.issued_at,
                        to: row.expire_at,
                    }
                };
                let mut lines: Vec<CheckLine> = Vec::new();
                lines.push(line);
                assert(lines@ =~= seq![license_line(r0, now_s, now_ns)]);
                CheckAction { lines, next: presign_check() }
            },
            CheckEvent::Presign(None, _) => {
                self.stage = CheckStage::Finished;
                let mut lines: Vec<CheckLine> = Vec::new();
                lines.push(CheckLine::PresignUnsupported);
                assert(lines@ =~= seq![CheckLine::PresignUnsupported]);
                CheckAction { lines, next: CheckNext::Done(Ok(())) }
            },
            CheckEvent::Presign(Some(u), Some(t)) => {
                self.stage = CheckStage::AwaitUpload;
                self.url = Some(u);
                let st = [
                    '@', '~', '/', 'b', 'e', 'n', 'd', 's', 'q', 'l', '/', '.', 'c', 'h', 'e', 'c', 'k',
                ];
                assert(st@ == seq_check_stage());
                CheckAction { lines: Vec::new(), next: CheckNext::Upload { stage: string_of(&st), data: t } }
            },
            CheckEvent::Presign(Some(_), None) => {
                self.stage = CheckStage::Finished;
                let msg = [
                    'F', 'a', 'i', 'l', 'e', 'd', ' ', 't', 'o', ' ', 'g', 'e', 't', ' ', 'c', 'u', 'r',
                    'r', 'e', 'n', 't', ' ', 't', 'i', 'm', 'e', 's', 't', 'a', 'm', 'p',
                ];
                assert(msg@ == seq_timestamp_failure());
                CheckAction { lines: Vec::new(), next: CheckNext::Done(Err(string_of(&msg))) }
            },
            CheckEvent::Upload(Err(m)) => {
                self.stage = CheckStage::Finished;
                let mut lines: Vec<CheckLine> = Vec::new();
                lines.push(CheckLine::UploadFailed(m));
                assert(lines@ =~= seq![CheckLine::UploadFailed(m)]);
                CheckAction { lines, next: CheckNext::Done(Ok(())) }
            },
            CheckEvent::Upload(Ok(())) => {
                self.stage = CheckStage::Finished;
                let url = match &self.url {
                    Some(u) => u.clone(),
                    None => String::new(),
                };
                self.url = None;
                match storage_host(url.as_str()) {
                    Err(DriverError::Parsing(m)) => CheckAction { lines: Vec::new(), next: CheckNext::Done(Err(m)) },
                    Err(_) => CheckAction { lines: Vec::new(), next: CheckNext::Done(Ok(())) },
                    Ok(h) => {
                        let mut lines: Vec<CheckLine> = Vec::new();
                        lines.push(CheckLine::StorageOk(h));
                        CheckAction { lines, next: CheckNext::Done(Ok(())) }
                    },
                }
            },
        }
    }
}

/// The text of the instant `(sec, nsec)` after the Unix epoch in RFC 3339 (UTC), as chrono's
/// `DateTime::<Utc>::to_rfc3339` writes it.
pub uninterp spec fn rfc3339_text(sec: int, nsec: int) -> Seq<char>;

/// Calls `chrono::DateTime::<Utc>::from_timestamp` and then `to_rfc3339`. A text returned is
/// that of the instant. `from_timestamp` gives an instant for nanoseconds below 10^9 whenever
/// the date lies within chrono's years -262143 to 262142, which holds for any instant within
/// 8 * 10^12 seconds (about 253 000 years) of the epoch; beyond that `None` is not
/// characterized.
#[verifier::external_body]
fn chrono_rfc3339(sec: i64, nsec: u32) -> (r: Option<String>)
    ensures
        r matches Some(t) ==> t@ == rfc3339_text(sec as int, nsec as int),
        nsec < 1_000_000_000 && -8_000_000_000_000 <= sec <= 8_000_000_000_000 ==> r is Some,
{
    match chrono::DateTime::<chrono::Utc>::from_timestamp(sec, nsec) {
        Some(t) => Some(t.to_rfc3339()),
        None => None,
    }
}

/// The current time as RFC 3339 text (the payload of the check's upload), or `None` where
/// the clock reads a time that cannot be represented. It depends on the clock; it never
/// panics, also for a clock before 1970.
pub fn now_rfc3339() -> (r: Option<String>)
    ensures
        r matches Some(t) ==> exists|sec: int, nsec: int|
            0 <= nsec < 1_000_000_000 && t@ == #[trigger] rfc3339_text(sec, nsec),
{
    match signed_epoch_time(time_since_epoch()) {
        Some((sec, nsec)) => {
            let r = chrono_rfc3339(sec, nsec);
            proof {
                if r is Some {
                    assert(r->0@ == rfc3339_text(sec as int, nsec as int));
                }
            }
            r
        },
        None => None,
    }
}

} // verus!
