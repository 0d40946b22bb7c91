//! The request-side logic of the HTTP query API connection: presign
//! statements and replies, stage locations for uploads, load options, and
//! the CSV payload of a streamed load.
use vstd::prelude::*;

use std::collections::VecDeque;

use crate::error::DriverError;
use crate::options::{has_key, insert_pos, keys_sorted, pairs_view, OptionMap};
use crate::text::{
    chars_of, decimal, extend_chars, signed_decimal, signed_decimal_chars, string_of,
};

verus! {

/// The view of a list of rows of string fields.
pub open spec fn rows_view(v: Seq<Vec<String>>) -> Seq<Seq<Seq<char>>> {
    v.map_values(|r: Vec<String>| r@.map_values(|f: String| f@))
}

// ---------------------------------------------------------------------------------------------
// Presigned URLs
// ---------------------------------------------------------------------------------------------

pub open spec fn seq_presign() -> Seq<char> {
    seq!['P', 'R', 'E', 'S', 'I', 'G', 'N', ' ']
}

/// The statement that asks the server for a presigned URL: `PRESIGN <operation> <stage>`.
pub fn presign_sql(operation: &str, stage: &str) -> (sql: String)
    ensures
        sql@ == seq_presign() + operation@ + seq![' '] + stage@,
{
    let head = ['P', 'R', 'E', 'S', 'I', 'G', 'N', ' '];
    let mut v: Vec<char> = Vec::new();
    extend_chars(&mut v, &head);
    let op = chars_of(operation);
    extend_chars(&mut v, op.as_slice());
    v.push(' ');
    let st = chars_of(stage);
    extend_chars(&mut v, st.as_slice());
    assert(v@ =~= seq_presign() + operation@ + seq![' '] + stage@);
    string_of(v.as_slice())
}

/// The entries, in key order, of the JSON object of strings in `s` as
/// `serde_json::from_str::<BTreeMap<String, String>>` reads it, or `None` where it rejects `s`.
pub uninterp spec fn json_string_map(s: Seq<char>) -> Option<Seq<(Seq<char>, Seq<char>)>>;

/// The message (`Display`) of the `serde_json::Error` with which
/// `serde_json::from_str::<BTreeMap<String, String>>` rejects `s`.
pub uninterp spec fn json_error_text(s: Seq<char>) -> Seq<char>;

/// Calls `serde_json::from_str` into a `BTreeMap<String, String>` and lists its entries in key
/// order; a rejection is handed back as the error's message. The contract claims that success,
/// the entries and the message are functions of the input, and that the entries come with
/// strictly increasing keys (a `BTreeMap` iterates in ascending key order, and `String` keys
/// order as their characters do); which texts the JSON reader accepts is not stated.
#[verifier::external_body]
fn json_parse_string_map(s: &str) -> (r: Result<Vec<(String, String)>, String>)
    ensures
        match r {
            Ok(v) => json_string_map(s@) == Some(pairs_view(v@)) && keys_sorted(pairs_view(v@)),
            Err(m) => json_string_map(s@) is None && m@ == json_error_text(s@),
        },
{
    match serde_json::from_str::<std::collections::BTreeMap<String, String>>(s) {
        Ok(m) => Ok(m.into_iter().collect()),
        Err(e) => Err(e.to_string()),
    }
}

/// A presigned URL: the HTTP method, the headers to send, and the URL.
pub struct PresignedResponse {
    pub method: String,
    pub headers: OptionMap,
    pub url: String,
}

pub open spec fn seq_empty_presign_reply() -> Seq<char> {
    seq![
        'E', 'm', 'p', 't', 'y', ' ', 'r', 'e', 's', 'p', 'o', 'n', 's', 'e', ' ', 'f', 'r', 'o', 'm',
        ' ', 's', 'e', 'r', 'v', 'e', 'r', ' ', 'f', 'o', 'r', ' ', 'p', 'r', 'e', 's', 'i', 'g',
        'n', 'e', 'd', ' ', 'r', 'e', 'q', 'u', 'e', 's', 't',
    ]
}

/// Reads the server's reply to a presign statement, given as its row of
/// `(method, headers as a JSON object, url)` if it has one: no row is an invalid response;
/// headers that are not a JSON object of strings are a parsing error; otherwise the presigned
/// URL with the headers' entries in key order. A parsing error carries the JSON reader's
/// message.
pub fn presigned_response_from_row(row: Option<(String, String, String)>) -> (r: Result<
    PresignedResponse,
    DriverError,
>)
    ensures
        row is None ==> (r matches Err(DriverError::InvalidResponse(m)) && m@
            == seq_empty_presign_reply()),
        row matches Some(t) ==> (json_string_map(t.1@) is None ==> (r matches Err(
            DriverError::Parsing(m),
        ) && m@ == json_error_text(t.1@))),
        row matches Some(t) ==> (json_string_map(t.1@) matches Some(h) ==> (r matches Ok(p)
            && p.method == t.0 && p.url == t.2 && p.headers@ == h)),
{
    match row {
        None => {
            let msg = [
                'E', 'm', 'p', 't', 'y', ' ', 'r', 'e', 's', 'p', 'o', 'n', 's', 'e', ' ', 'f', 'r',
                'o', 'm', ' ', 's', 'e', 'r', 'v', 'e', 'r', ' ', 'f', 'o', 'r', ' ', 'p', 'r', 'e',
                's', 'i', 'g', 'n', 'e', 'd', ' ', 'r', 'e', 'q', 'u', 'e', 's', 't',
            ];
            assert(msg@ == seq_empty_presign_reply());
            Err(DriverError::InvalidResponse(string_of(&msg)))
        },
        Some((method, headers, url)) => match json_parse_string_map(headers.as_str()) {
            Err(m) => Err(DriverError::Parsing(m)),
            Ok(h) => Ok(PresignedResponse { method, headers: OptionMap::from_sorted(h), url }),
        },
    }
}

// ---------------------------------------------------------------------------------------------
// Loading data through a stage
// ---------------------------------------------------------------------------------------------

pub open spec fn seq_load_prefix() -> Seq<char> {
    seq!['@', '~', '/', 'c', 'l', 'i', 'e', 'n', 't', '/', 'l', 'o', 'a', 'd', '/']
}

pub open spec fn seq_timestamp_failure() -> Seq<char> {
    seq![
        'F', 'a', 'i', 'l', 'e', 'd', ' ', 't', 'o', ' ', 'g', 'e', 't', ' ', 'c', 'u', 'r', 'r', 'e',
        'n', 't', ' ', 't', 'i', 'm', 'e', 's', 't', 'a', 'm', 'p',
    ]
}

/// The stage location that a load uploads its data to, named after the current time in
/// nanoseconds: `@~/client/load/<nanos>`; without a timestamp, an I/O error.
pub fn load_stage_path(now_nanos: Option<i64>) -> (r: Result<String, DriverError>)
    ensures
        now_nanos matches Some(n) ==> (r matches Ok(p) && p@ == seq_load_prefix()
            + signed_decimal(n as int)),
        now_nanos is None ==> (r matches Err(DriverError::IO(m)) && m@ == seq_timestamp_failure()),
{
    match now_nanos {
        None => {
            let msg = [
                'F', 'a', 'i', 'l', 'e', 'd', ' ', 't', 'o', ' ', 'g', 'e', 't', ' ', 'c', 'u', 'r',
                'r', 'e', 'n', 't', ' ', 't', 'i', 'm', 'e', 's', 't', 'a', 'm', 'p',
            ];
            assert(msg@ == seq_timestamp_failure());
            Err(DriverError::IO(string_of(&msg)))
        },
        Some(n) => {
            let prefix = ['@', '~', '/', 'c', 'l', 'i', 'e', 'n', 't', '/', 'l', 'o', 'a', 'd', '/'];
            let mut v: Vec<char> = Vec::new();
            extend_chars(&mut v, &prefix);
            let digits = signed_decimal_chars(n);
            extend_chars(&mut v, digits.as_slice());
            assert(v@ =~= seq_load_prefix() + signed_decimal(n as int));
            Ok(string_of(v.as_slice()))
        },
    }
}

/// The system clock's distance from the Unix epoch (`SystemTime::now().duration_since(UNIX_EPOCH)`)
/// as whole seconds and nanoseconds: `Ok` when the clock reads the epoch or later, `Err` with
/// the distance back to it when it reads earlier. The nanoseconds are below 10^9
/// (`Duration::subsec_nanos`); nothing else is claimed: the value depends on the clock.
#[verifier::external_body]
pub(crate) fn time_since_epoch() -> (r: Result<(u64, u32), (u64, u32)>)
    ensures
        match r {
            Ok((_, ns)) => ns < 1_000_000_000,
            Err((_, ns)) => ns < 1_000_000_000,
        },
{
    match std::time::SystemTime::now().duration_since(std::time::UNIX_EPOCH) {
        Ok(d) => Ok((d.as_secs(), d.subsec_nanos())),
        Err(e) => Err((e.duration().as_secs(), e.duration().subsec_nanos())),
    }
}

/// A distance from the epoch as signed seconds and nanoseconds within the second: the signed
/// total `sec * 10^9 + nsec` is the distance (negative before the epoch), `nsec` is below
/// 10^9, and `None` where the seconds do not fit in an `i64`.
pub fn signed_epoch_time(d: Result<(u64, u32), (u64, u32)>) -> (r: Option<(i64, u32)>)
    requires
        match d {
            Ok((_, ns)) => ns < 1_000_000_000,
            Err((_, ns)) => ns < 1_000_000_000,
        },
    ensures
        match d {
            Ok((s, ns)) => if s <= i64::MAX {
                r == Some((s as i64, ns))
            } else {
                r is None
            },
            Err((s, ns)) => if ns == 0 && s <= 9223372036854775808u64 {
                r matches Some((sec, nsec)) && sec == -(s as int) && nsec == 0
            } else if ns > 0 && s < 9223372036854775808u64 {
                r matches Some((sec, nsec)) && sec == -(s as int) - 1 && nsec == 1_000_000_000 - ns
            } else {
                r is None
            },
        },
{
    match d {
        Ok((s, ns)) => if s <= i64::MAX as u64 {
            Some((s as i64, ns))
        } else {
            None
        },
        Err((s, ns)) => {
            if ns == 0 {
                if s == 9223372036854775808u64 {
                    Some((i64::MIN, 0))
                } else if s < 9223372036854775808u64 {
                    Some((-(s as i64), 0))
                } else {
                    None
                }
            } else if s < 9223372036854775808u64 {
                Some((-(s as i64) - 1, 1_000_000_000 - ns))
            } else {
                None
            }
        },
    }
}

/// Calls `chrono::DateTime::<Utc>::from_timestamp` and then `timestamp_nanos_opt`. A value
/// returned is the count of nanoseconds `sec * 10^9 + nsec`; `None` (the time is outside
/// chrono's range or the count outside `i64`) is not characterized further.
#[verifier::external_body]
fn chrono_timestamp_nanos(sec: i64, nsec: u32) -> (r: Option<i64>)
    ensures
        r matches Some(n) ==> n == sec * 1_000_000_000 + nsec,
{
    match chrono::DateTime::<chrono::Utc>::from_timestamp(sec, nsec) {
        Some(t) => t.timestamp_nanos_opt(),
        None => None,
    }
}

/// The current time in nanoseconds since the Unix epoch, or `None` where it cannot be
/// represented. It depends on the clock; it never panics, also for a clock before 1970.
pub fn now_timestamp_nanos() -> Option<i64> {
    match signed_epoch_time(time_since_epoch()) {
        Some((sec, nsec)) => chrono_timestamp_nanos(sec, nsec),
        None => None,
    }
}

/// A fresh stage location for a load, named after the current time: on success it is
/// `@~/client/load/` followed by a (possibly signed) decimal number.
pub fn new_load_stage() -> (r: Result<String, DriverError>)
    ensures
        r matches Ok(p) ==> exists|n: i64| p@ == seq_load_prefix() + signed_decimal(n as int),
        r matches Err(e) ==> (e matches DriverError::IO(m) && m@ == seq_timestamp_failure()),
{
    let now = now_timestamp_nanos();
    let r = load_stage_path(now);
    proof {
        if now is Some && r is Ok {
            let n = now->0;
            assert(r->Ok_0@ == seq_load_prefix() + signed_decimal(n as int));
        }
    }
    r
}

pub open spec fn seq_type() -> Seq<char> {
    seq!['t', 'y', 'p', 'e']
}

/// The file format options of a load when the caller gives none, in key order:
/// `field_delimiter=,`, `record_delimiter=\n`, `skip_header=0`, `type=CSV`.
pub open spec fn default_file_format_spec() -> Seq<(Seq<char>, Seq<char>)> {
    seq![
        (seq!['f', 'i', 'e', 'l', 'd', '_', 'd', 'e', 'l', 'i', 'm', 'i', 't', 'e', 'r'], seq![',']),
        (seq!['r', 'e', 'c', 'o', 'r', 'd', '_', 'd', 'e', 'l', 'i', 'm', 'i', 't', 'e', 'r'], seq!['\n']),
        (seq!['s', 'k', 'i', 'p', '_', 'h', 'e', 'a', 'd', 'e', 'r'], seq!['0']),
        (seq_type(), seq!['C', 'S', 'V']),
    ]
}

/// The copy options of a load when the caller gives none: `purge=true`.
pub open spec fn default_copy_spec() -> Seq<(Seq<char>, Seq<char>)> {
    seq![(seq!['p', 'u', 'r', 'g', 'e'], seq!['t', 'r', 'u', 'e'])]
}

proof fn lemma_default_file_format_sorted()
    ensures
        keys_sorted(default_file_format_spec()),
{
    let d = default_file_format_spec();
    assert(d[0].0[0] == 'f' && d[1].0[0] == 'r' && d[2].0[0] == 's' && d[3].0[0] == 't');
    assert(crate::options::key_lt(d[0].0, d[1].0));
    assert(crate::options::key_lt(d[0].0, d[2].0));
    assert(crate::options::key_lt(d[0].0, d[3].0));
    assert(crate::options::key_lt(d[1].0, d[2].0));
    assert(crate::options::key_lt(d[1].0, d[3].0));
    assert(crate::options::key_lt(d[2].0, d[3].0));
}

fn pair_of(k: &[char], v: &[char]) -> (p: (String, String))
    ensures
        p.0@ == k@,
        p.1@ == v@,
{
    (string_of(k), string_of(v))
}

/// The default file format options of a load (see `default_file_format_spec`).
pub fn default_file_format_options() -> (r: OptionMap)
    ensures
        r@ == default_file_format_spec(),
{
    let k1 = ['f', 'i', 'e', 'l', 'd', '_', 'd', 'e', 'l', 'i', 'm', 'i', 't', 'e', 'r'];
    let v1 = [','];
    let k2 = ['r', 'e', 'c', 'o', 'r', 'd', '_', 'd', 'e', 'l', 'i', 'm', 'i', 't', 'e', 'r'];
    let v2 = ['\n'];
    let k3 = ['s', 'k', 'i', 'p', '_', 'h', 'e', 'a', 'd', 'e', 'r'];
    let v3 = ['0'];
    let k4 = ['t', 'y', 'p', 'e'];
    let v4 = ['C', 'S', 'V'];
    assert(k1@ == default_file_format_spec()[0].0);
    assert(v1@ == default_file_format_spec()[0].1);
    assert(k2@ == default_file_format_spec()[1].0);
    assert(v2@ == default_file_format_spec()[1].1);
    assert(k3@ == default_file_format_spec()[2].0);
    assert(v3@ == default_file_format_spec()[2].1);
    assert(k4@ == default_file_format_spec()[3].0);
    assert(v4@ == default_file_format_spec()[3].1);
    let mut r: Vec<(String, String)> = Vec::new();
    r.push(pair_of(&k1, &v1));
    r.push(pair_of(&k2, &v2));
    r.push(pair_of(&k3, &v3));
    r.push(pair_of(&k4, &v4));
    assert(pairs_view(r@) =~= default_file_format_spec());
    proof {
        lemma_default_file_format_sorted();
    }
    OptionMap::from_sorted(r)
}

/// The default copy options of a load (see `default_copy_spec`).
pub fn default_copy_options() -> (r: OptionMap)
    ensures
        r@ == default_copy_spec(),
{
    let k = ['p', 'u', 'r', 'g', 'e'];
    let v = ['t', 'r', 'u', 'e'];
    assert(k@ == default_copy_spec()[0].0);
    assert(v@ == default_copy_spec()[0].1);
    let mut r: Vec<(String, String)> = Vec::new();
    r.push(pair_of(&k, &v));
    assert(pairs_view(r@) =~= default_copy_spec());
    OptionMap::from_sorted(r)
}

/// The options a load uses: those given, or else the defaults.
pub fn load_options(file_format_options: Option<OptionMap>, copy_options: Option<OptionMap>) -> (r: (
    OptionMap,
    OptionMap,
))
    ensures
        r.0@ == match file_format_options {
            Some(o) => o@,
            None => default_file_format_spec(),
        },
        r.1@ == match copy_options {
            Some(o) => o@,
            None => default_copy_spec(),
        },
{
    let f = match file_format_options {
        Some(o) => o,
        None => default_file_format_options(),
    };
    let c = match copy_options {
        Some(o) => o,
        None => default_copy_options(),
    };
    (f, c)
}


pub open spec fn seq_no_file_type() -> Seq<char> {
    seq![
        'f', 'i', 'l', 'e', ' ', 't', 'y', 'p', 'e', ' ', 'n', 'o', 't', ' ', 's', 'p', 'e', 'c',
        'i', 'f', 'i', 'e', 'd',
    ]
}

/// The file format options for loading a file whose extension is `extension`: the options
/// as given if they name a `type`; else, without an extension, a bad-argument error; else the
/// options with `type` set to the extension (in key order).
pub fn file_format_with_type(options: OptionMap, extension: Option<String>) -> (r: Result<
    OptionMap,
    DriverError,
>)
    ensures
        has_key(options@, seq_type()) ==> (r matches Ok(o) && o@ == options@),
        !has_key(options@, seq_type()) ==> (extension is None ==> (r matches Err(
            DriverError::BadArgument(m),
        ) && m@ == seq_no_file_type())),
        !has_key(options@, seq_type()) ==> (extension matches Some(e) ==> (r matches Ok(o) && o@
            == options@.insert(insert_pos(options@, seq_type()), (seq_type(), e@)))),
{
    let ty = ['t', 'y', 'p', 'e'];
    assert(ty@ == seq_type());
    let tys = string_of(&ty);
    if options.contains_key(tys.as_str()) {
        return Ok(options);
    }
    match extension {
        None => {
            let msg = [
                'f', 'i', 'l', 'e', ' ', 't', 'y', 'p', 'e', ' ', 'n', 'o', 't', ' ', 's', 'p', 'e',
                'c', 'i', 'f', 'i', 'e', 'd',
            ];
            assert(msg@ == seq_no_file_type());
            Err(DriverError::BadArgument(string_of(&msg)))
        },
        Some(e) => {
            let mut o = options;
            o.insert(tys, e);
            Ok(o)
        },
    }
}

/// A load of data into a table through a stage file. Its upload to the stage comes first;
/// `after_upload` gives the insert from the stage only for a successful upload.
pub struct StageLoad {
    stage: String,
    file_format_options: OptionMap,
    copy_options: OptionMap,
}

/// The insert from a stage file that ends a load.
pub struct StageInsert {
    pub stage: String,
    pub file_format_options: OptionMap,
    pub copy_options: OptionMap,
}

impl StageLoad {
    /// The stage file the data goes to.
    pub closed spec fn stage_spec(&self) -> Seq<char> {
        self.stage@
    }

    /// The file format options of the insert.
    pub closed spec fn formats(&self) -> Seq<(Seq<char>, Seq<char>)> {
        self.file_format_options@
    }

    /// The copy options of the insert.
    pub closed spec fn copies(&self) -> Seq<(Seq<char>, Seq<char>)> {
        self.copy_options@
    }

    /// Starts a load at the current time `now_nanos` (nanoseconds since the epoch): without a
    /// timestamp an I/O error; else a load through the stage `@~/client/load/<nanos>` with the
    /// options given, or the default ones (see `load_options`).
    pub fn start(
        now_nanos: Option<i64>,
        file_format_options: Option<OptionMap>,
        copy_options: Option<OptionMap>,
    ) -> (r: Result<StageLoad, DriverError>)
        ensures
            now_nanos is None ==> (r matches Err(DriverError::IO(m)) && m@ == seq_timestamp_failure()),
            now_nanos matches Some(n) ==> (r matches Ok(l) && l.stage_spec() == seq_load_prefix()
                + signed_decimal(n as int) && l.formats() == match file_format_options {
                Some(o) => o@,
                None => default_file_format_spec(),
            } && l.copies() == match copy_options {
                Some(o) => o@,
                None => default_copy_spec(),
            }),
    {
        let stage = match load_stage_path(now_nanos) {
            Ok(st) => st,
            Err(e) => {
                return Err(e);
            },
        };
        let (f, c) = load_options(file_format_options, copy_options);
        Ok(StageLoad { stage, file_format_options: f, copy_options: c })
    }

    /// The stage file to upload the data to.
    pub fn upload_stage(&self) -> (s: &String)
        ensures
            s@ == self.stage_spec(),
    {
        &self.stage
    }

    /// After the upload: a failed upload ends the load with its error (no insert is made);
    /// a successful one gives the insert from the same stage with the load's options.
    pub fn after_upload(self, uploaded: Result<(), DriverError>) -> (r: Result<StageInsert, DriverError>)
        ensures
            uploaded matches Err(e) ==> r == Err::<StageInsert, DriverError>(e),
            uploaded is Ok ==> (r matches Ok(i) && i.stage@ == self.stage_spec()
                && i.file_format_options@ == self.formats() && i.copy_options@ == self.copies()),
    {
        match uploaded {
            Err(e) => Err(e),
            Ok(()) => Ok(
                StageInsert {
                    stage: self.stage,
                    file_format_options: self.file_format_options,
                    copy_options: self.copy_options,
                },
            ),
        }
    }
}

/// The extension of `path` as `std::path::Path::extension` finds it (the part of the last
/// component after its final `.`), or `None` where it finds none.
pub uninterp spec fn path_extension_of(path: Seq<char>) -> Option<Seq<char>>;

/// Calls `std::path::Path::extension` and `OsStr::to_str` (which cannot fail on a part of a
/// `&str`). The contract names the result, a function of the path, and claims the documented
/// fact that an extension holds no `.`.
#[verifier::external_body]
fn path_extension(path: &str) -> (r: Option<String>)
    ensures
        match r {
            Some(e) => path_extension_of(path@) == Some(e@) && !e@.contains('.'),
            None => path_extension_of(path@) is None,
        },
{
    match std::path::Path::new(path).extension() {
        Some(e) => e.to_str().map(|s| s.to_string()),
        None => None,
    }
}

/// The file format options for loading the file at `path`: the options as given if they
/// name a `type`; else, if the path has an extension, the options with `type` set to it
/// (in key order); else the bad-argument error `file type not specified`.
pub fn load_file_options(options: OptionMap, path: &str) -> (r: Result<OptionMap, DriverError>)
    ensures
        has_key(options@, seq_type()) ==> (r matches Ok(o) && o@ == options@),
        !has_key(options@, seq_type()) ==> (path_extension_of(path@) is None ==> (r matches Err(
            DriverError::BadArgument(m),
        ) && m@ == seq_no_file_type())),
        !has_key(options@, seq_type()) ==> (path_extension_of(path@) matches Some(e) ==> (
        r matches Ok(o) && o@ == options@.insert(insert_pos(options@, seq_type()), (seq_type(), e)))),
{
    let ext = path_extension(path);
    file_format_with_type(options, ext)
}

// ---------------------------------------------------------------------------------------------
// The CSV payload of a streamed load
// ---------------------------------------------------------------------------------------------

/// A CSV writer into memory (`csv::Writer<Vec<u8>>`), opaque to verification. A writer whose
/// write was refused is consumed by that write, so every writer that exists has completed all
/// the records written to it.
#[verifier::external_body]
pub struct CsvBuffer {
    writer: csv::Writer<Vec<u8>>,
}

/// The records that the CSV writer `w` has completed, in order.
pub uninterp spec fn csv_records(w: CsvBuffer) -> Seq<Seq<Seq<char>>>;

/// The bytes that `csv::Writer` (default settings) produces for the completed `records`.
pub uninterp spec fn csv_encoding(records: Seq<Seq<Seq<char>>>) -> Seq<u8>;

/// Calls `csv::WriterBuilder::new().from_writer(vec![])`: a writer with no records.
#[verifier::external_body]
fn csv_writer_new() -> (w: CsvBuffer)
    ensures
        csv_records(w) == Seq::<Seq<Seq<char>>>::empty(),
{
    CsvBuffer { writer: csv::WriterBuilder::new().from_writer(vec![]) }
}

/// The message with which the CSV writer refuses a record of `len` fields after records of
/// `expected` fields (`UnequalLengths` without a position, as the writer reports it).
pub open spec fn csv_unequal_lengths_message(len: nat, expected: nat) -> Seq<char> {
    seq!['C', 'S', 'V', ' ', 'e', 'r', 'r', 'o', 'r', ':', ' ', 'f', 'o', 'u', 'n', 'd', ' ', 'r',
        'e', 'c', 'o', 'r', 'd', ' ', 'w', 'i', 't', 'h', ' '] + decimal(len) + seq![' ', 'f', 'i',
        'e', 'l', 'd', 's', ',', ' ', 'b', 'u', 't', ' ', 't', 'h', 'e', ' ', 'p', 'r', 'e', 'v',
        'i', 'o', 'u', 's', ' ', 'r', 'e', 'c', 'o', 'r', 'd', ' ', 'h', 'a', 's', ' '] + decimal(
        expected,
    ) + seq![' ', 'f', 'i', 'e', 'l', 'd', 's']
}

/// Calls `csv::Writer::write_record`, consuming the writer. The writer is not flexible: it
/// refuses a record whose number of fields differs from the first record's (`UnequalLengths`,
/// handed back as its message); writing into a `Vec` fails in no other way. So the record is
/// refused exactly when the writer already has records and the first has another number of
/// fields. An accepted record is completed after the earlier ones and the writer is handed
/// back; a refused one drops the writer.
#[verifier::external_body]
fn csv_write_record(w: CsvBuffer, row: &Vec<String>) -> (r: Result<CsvBuffer, String>)
    ensures
        r is Ok <==> (csv_records(w).len() == 0 || csv_records(w)[0].len() == row@.len()),
        r matches Ok(w2) ==> csv_records(w2) == csv_records(w).push(
            row@.map_values(|f: String| f@),
        ),
        r matches Err(m) ==> m@ == csv_unequal_lengths_message(
            row@.len(),
            csv_records(w)[0].len(),
        ),
{
    let mut w = w;
    match w.writer.write_record(row) {
        Ok(()) => Ok(w),
        Err(e) => Err(e.to_string()),
    }
}

/// Calls `csv::Writer::into_inner`: the bytes of the completed records. Its only failure is a
/// failed flush of the buffer into the underlying writer, and writing into a `Vec` does not
/// fail, so it succeeds.
#[verifier::external_body]
fn csv_into_inner(w: CsvBuffer) -> (r: Result<Vec<u8>, String>)
    ensures
        r is Ok,
        r matches Ok(b) ==> b@ == csv_encoding(csv_records(w)),
{
    match w.writer.into_inner() {
        Ok(b) => Ok(b),
        Err(e) => Err(e.to_string()),
    }
}

/// The index of the first row whose number of fields differs from the first row's, searching
/// from `i` (the number of rows if there is none).
pub open spec fn first_ragged_from(rows: Seq<Seq<Seq<char>>>, i: int) -> int
    decreases rows.len() - i,
{
    if i < 0 || i >= rows.len() {
        rows.len() as int
    } else if rows[i].len() != rows[0].len() {
        i
    } else {
        first_ragged_from(rows, i + 1)
    }
}

proof fn lemma_first_ragged(rows: Seq<Seq<Seq<char>>>, i: int, k: int)
    requires
        0 <= i <= k < rows.len(),
        forall|m: int| i <= m < k ==> #[trigger] rows[m].len() == rows[0].len(),
        rows[k].len() != rows[0].len(),
    ensures
        first_ragged_from(rows, i) == k,
    decreases k - i,
{
    if i < k {
        lemma_first_ragged(rows, i + 1, k);
    }
}

/// All rows have the same number of fields.
pub open spec fn rectangular(rows: Seq<Seq<Seq<char>>>) -> bool {
    forall|i: int, j: int| 0 <= i < rows.len() && 0 <= j < rows.len() ==> #[trigger] rows[i].len()
        == #[trigger] rows[j].len()
}

/// The CSV payload of a streamed load: rows that all have the same number of fields become
/// their CSV encoding; otherwise the CSV writer refuses the first row whose number of fields
/// differs from the first row's, and the result is a bad-argument error with its message.
pub fn encode_csv_rows(rows: &Vec<Vec<String>>) -> (r: Result<Vec<u8>, DriverError>)
    ensures
        rectangular(rows_view(rows@)) ==> (r matches Ok(b) && b@ == csv_encoding(
            rows_view(rows@),
        )),
        !rectangular(rows_view(rows@)) ==> (r matches Err(DriverError::BadArgument(m)) && m@
            == csv_unequal_lengths_message(
            rows_view(rows@)[first_ragged_from(rows_view(rows@), 0)].len(),
            rows_view(rows@)[0].len(),
        )),
{
    let ghost rv = rows_view(rows@);
    let mut w = csv_writer_new();
    let mut k: usize = 0;
    while k < rows.len()
        invariant
            k <= rows@.len(),
            rv == rows_view(rows@),
            csv_records(w) == rv.subrange(0, k as int),
            forall|m: int| 0 <= m < k ==> #[trigger] rv[m].len() == rv[0].len(),
        decreases rows.len() - k,
    {
        let ghost before = csv_records(w);
        assert(rv[k as int] == rows@[k as int]@.map_values(|f: String| f@));
        match csv_write_record(w, &rows[k]) {
            Err(m) => {
                assert(rv[k as int].len() != rv[0].len());
                assert(!rectangular(rv));
                proof {
                    lemma_first_ragged(rv, 0, k as int);
                }
                return Err(DriverError::BadArgument(m));
            },
            Ok(w2) => {
                w = w2;
            },
        }
        assert(rv.subrange(0, k + 1) =~= before.push(rv[k as int]));
        k = k + 1;
    }
    assert(rv.subrange(0, rows@.len() as int) =~= rv);
    assert(rectangular(rv)) by {
        assert forall|i: int, j: int| 0 <= i < rv.len() && 0 <= j < rv.len() implies #[trigger] rv[i].len()
            == #[trigger] rv[j].len() by {
            assert(rv[i].len() == rv[0].len());
            assert(rv[j].len() == rv[0].len());
        }
    }
    match csv_into_inner(w) {
        Ok(b) => Ok(b),
        Err(m) => Err(DriverError::IO(m)),
    }
}

} // verus!


verus! {

// ---------------------------------------------------------------------------------------------
// Reading a single row
// ---------------------------------------------------------------------------------------------

pub open spec fn seq_kill_uri_empty() -> Seq<char> {
    seq!['k', 'i', 'l', 'l', '_', 'u', 'r', 'i', ' ', 'i', 's', ' ', 'e', 'm', 'p', 't', 'y']
}

/// A reply of the query API: the query id, the URIs of the next page and for killing the
/// query, the result schema (of the caller's choosing) and the rows.
pub struct QueryReply<S> {
    pub id: String,
    pub next_uri: Option<String>,
    pub kill_uri: Option<String>,
    pub schema: S,
    pub data: Vec<Vec<String>>,
}

/// Where a one-row query stands.
#[derive(Clone, Copy, PartialEq, Eq, Structural, Debug)]
pub enum RowQueryStage {
    /// Waiting for the reply to starting the query.
    AwaitFirst,
    /// Waiting for the next page, because no rows have come yet.
    AwaitPage,
    /// Waiting for the answer to the kill request.
    AwaitKill,
    Finished,
}

/// A result fed back to a one-row query.
pub enum RowQueryEvent<S> {
    /// The reply to starting the query.
    First(Result<QueryReply<S>, DriverError>),
    /// The reply to a page request.
    Page(Result<QueryReply<S>, DriverError>),
    /// The answer to the kill request.
    Killed(Result<(), DriverError>),
}

/// What a one-row query asks of the caller next.
pub enum RowQueryAction<S> {
    /// Request the page `next_uri` of the query.
    FetchPage { query_id: String, next_uri: String },
    /// Send the kill request `kill_uri` for the query.
    Kill { query_id: String, kill_uri: String },
    /// The query is done: the schema of its first reply and its first row, if any.
    Row { schema: S, row: Option<Vec<String>> },
    /// The query failed.
    Failed(DriverError),
}

/// A query of which only the first row is wanted: it waits for a reply with rows (following
/// the next-page URIs while replies come without rows, and keeping the first reply's schema),
/// then kills the query once, and only then hands out the first row.
pub struct RowQuery<S> {
    stage: RowQueryStage,
    schema: Option<S>,
    data: Vec<Vec<String>>,
}

pub ghost struct RowQueryView<S> {
    pub stage: RowQueryStage,
    pub schema: Option<S>,
    pub data: Seq<Vec<String>>,
}

impl<S> View for RowQuery<S> {
    type V = RowQueryView<S>;

    closed spec fn view(&self) -> RowQueryView<S> {
        RowQueryView { stage: self.stage, schema: self.schema, data: self.data@ }
    }
}

/// A one-row query keeps a schema while it waits for a page or the kill.
pub open spec fn row_query_wf<S>(v: RowQueryView<S>) -> bool {
    (v.stage == RowQueryStage::AwaitPage || v.stage == RowQueryStage::AwaitKill) ==> v.schema is Some
}

/// The event fits the stage.
pub open spec fn row_query_fits<S>(stage: RowQueryStage, e: RowQueryEvent<S>) -> bool {
    match e {
        RowQueryEvent::First(_) => stage == RowQueryStage::AwaitFirst,
        RowQueryEvent::Page(_) => stage == RowQueryStage::AwaitPage,
        RowQueryEvent::Killed(_) => stage == RowQueryStage::AwaitKill,
    }
}

/// A reply ends the waiting when it has rows or no next page.
pub open spec fn reply_ready<S>(r: QueryReply<S>) -> bool {
    r.data@.len() > 0 || r.next_uri is None
}

/// What taking the reply `r` does, with `schema` as the query's schema: a reply that ends the
/// waiting asks for the kill (its rows kept), or fails without a kill URI; any other reply asks
/// for its next page.
pub open spec fn settles<S>(v: RowQueryView<S>, a: RowQueryAction<S>, schema: S, r: QueryReply<S>) -> bool {
    if reply_ready(r) {
        match r.kill_uri {
            None => v.stage == RowQueryStage::Finished && (a matches RowQueryAction::Failed(
                DriverError::InvalidResponse(m),
            ) && m@ == seq_kill_uri_empty()),
            Some(k) => v == (RowQueryView { stage: RowQueryStage::AwaitKill, schema: Some(schema), data: r.data@ })
                && a == (RowQueryAction::<S>::Kill { query_id: r.id, kill_uri: k }),
        }
    } else {
        v.stage == RowQueryStage::AwaitPage && v.schema == Some(schema) && a == (
        RowQueryAction::<S>::FetchPage { query_id: r.id, next_uri: r.next_uri->0 })
    }
}

impl<S> RowQuery<S> {
    pub fn new() -> (q: RowQuery<S>)
        ensures
            q@.stage == RowQueryStage::AwaitFirst,
            row_query_wf(q@),
    {
        RowQuery { stage: RowQueryStage::AwaitFirst, schema: None, data: Vec::new() }
    }

    pub fn stage(&self) -> (s: RowQueryStage)
        ensures
            s == self@.stage,
    {
        self.stage
    }

    fn settle(
        &mut self,
        schema: S,
        id: String,
        next_uri: Option<String>,
        kill_uri: Option<String>,
        data: Vec<Vec<String>>,
        Ghost(r): Ghost<QueryReply<S>>,
    ) -> (a: RowQueryAction<S>)
        requires
            r.id == id,
            r.next_uri == next_uri,
            r.kill_uri == kill_uri,
            r.data == data,
        ensures
            settles(final(self)@, a, schema, r),
    {
        if data.len() > 0 || next_uri.is_none() {
            match kill_uri {
                None => {
                    self.stage = RowQueryStage::Finished;
                    let msg = ['k', 'i', 'l', 'l', '_', 'u', 'r', 'i', ' ', 'i', 's', ' ', 'e', 'm', 'p', 't', 'y'];
                    assert(msg@ == seq_kill_uri_empty());
                    RowQueryAction::Failed(DriverError::InvalidResponse(string_of(&msg)))
                },
                Some(k) => {
                    self.stage = RowQueryStage::AwaitKill;
                    self.schema = Some(schema);
                    self.data = data;
                    RowQueryAction::Kill { query_id: id, kill_uri: k }
                },
            }
        } else {
            self.stage = RowQueryStage::AwaitPage;
            self.schema = Some(schema);
            match next_uri {
                Some(u) => RowQueryAction::FetchPage { query_id: id, next_uri: u },
                None => RowQueryAction::FetchPage { query_id: id, next_uri: String::new() },
            }
        }
    }

    /// One step of a one-row query. A failed reply or page request ends it with that error at
    /// once. A reply is taken as described by `settles`, the schema being that of the first
    /// reply. After the kill request: its error ends the query; else the first row kept (if
    /// any) is handed out with the schema.
    pub fn step(&mut self, e: RowQueryEvent<S>) -> (a: RowQueryAction<S>)
        requires
            row_query_wf(old(self)@),
            row_query_fits(old(self)@.stage, e),
        ensures
            row_query_wf(final(self)@),
            e matches RowQueryEvent::First(Err(err)) ==> final(self)@.stage == RowQueryStage::Finished
                && a == RowQueryAction::<S>::Failed(err),
            e matches RowQueryEvent::Page(Err(err)) ==> final(self)@.stage == RowQueryStage::Finished
                && a == RowQueryAction::<S>::Failed(err),
            e matches RowQueryEvent::First(Ok(r)) ==> settles(final(self)@, a, r.schema, r),
            e matches RowQueryEvent::Page(Ok(r)) ==> settles(final(self)@, a, old(self)@.schema->0, r),
            e matches RowQueryEvent::Killed(Err(err)) ==> final(self)@.stage == RowQueryStage::Finished
                && a == RowQueryAction::<S>::Failed(err),
            e matches RowQueryEvent::Killed(Ok(())) ==> final(self)@.stage == RowQueryStage::Finished
                && a == (RowQueryAction::<S>::Row {
                schema: old(self)@.schema->0,
                row: if old(self)@.data.len() > 0 {
                    Some(old(self)@.data[0])
                } else {
                    None
                },
            }),
    {
        match e {
            RowQueryEvent::First(Err(err)) => {
                self.stage = RowQueryStage::Finished;
                RowQueryAction::Failed(err)
            },
            RowQueryEvent::Page(Err(err)) => {
                self.stage = RowQueryStage::Finished;
                RowQueryAction::Failed(err)
            },
            RowQueryEvent::First(Ok(r)) => {
                let ghost r0 = r;
                let QueryReply { id, next_uri, kill_uri, schema, data } = r;
                self.settle(schema, id, next_uri, kill_uri, data, Ghost(r0))
            },
            RowQueryEvent::Page(Ok(r)) => {
                let schema = match self.schema.take() {
                    Some(s) => s,
                    None => {
                        proof {
                            assert(false);
                        }
                        self.stage = RowQueryStage::Finished;
                        return RowQueryAction::Failed(DriverError::InvalidResponse(String::new()));
                    },
                };
                let ghost r0 = r;
                let QueryReply { id, next_uri, kill_uri, schema: _, data } = r;
                self.settle(schema, id, next_uri, kill_uri, data, Ghost(r0))
            },
            RowQueryEvent::Killed(Err(err)) => {
                self.stage = RowQueryStage::Finished;
                RowQueryAction::Failed(err)
            },
            RowQueryEvent::Killed(Ok(())) => {
                self.stage = RowQueryStage::Finished;
                let schema = match self.schema.take() {
                    Some(s) => s,
                    None => {
                        proof {
                            assert(false);
                        }
                        return RowQueryAction::Failed(DriverError::InvalidResponse(String::new()));
                    },
                };
                let row = if self.data.len() > 0 {
                    Some(self.data.remove(0))
                } else {
                    None
                };
                RowQueryAction::Row { schema, row }
            },
        }
    }
}

// ---------------------------------------------------------------------------------------------
// Executing a statement, and the server version
// ---------------------------------------------------------------------------------------------

/// A reply while executing a statement: the query id, the next page, and the number of rows
/// written so far (the write progress of its statistics).
pub struct ExecReply {
    pub id: String,
    pub next_uri: Option<String>,
    pub written_rows: u64,
}

/// What executing a statement does next.
pub enum ExecStep {
    /// Request the page `next_uri` of the query.
    FetchPage { query_id: String, next_uri: String },
    /// The statement is done; this many rows were written.
    Done(i64),
    /// The statement failed.
    Failed(DriverError),
}

/// One step of executing a statement, given the reply to starting it or to the last page
/// request: an error ends it at once; a reply with a next page asks for that page; the last
/// reply gives its written rows as the result (`as i64`, as the driver reports it).
pub fn exec_step(reply: Result<ExecReply, DriverError>) -> (s: ExecStep)
    ensures
        reply matches Err(e) ==> s == ExecStep::Failed(e),
        reply matches Ok(r) ==> (r.next_uri matches Some(u) ==> s == (ExecStep::FetchPage {
            query_id: r.id,
            next_uri: u,
        })),
        reply matches Ok(r) ==> (r.next_uri is None ==> s == ExecStep::Done(r.written_rows as i64)),
{
    match reply {
        Err(e) => ExecStep::Failed(e),
        Ok(ExecReply { id, next_uri, written_rows }) => match next_uri {
            Some(u) => ExecStep::FetchPage { query_id: id, next_uri: u },
            None => ExecStep::Done(written_rows as i64),
        },
    }
}

pub open spec fn seq_version_sql() -> Seq<char> {
    seq!['S', 'E', 'L', 'E', 'C', 'T', ' ', 'v', 'e', 'r', 's', 'i', 'o', 'n', '(', ')']
}

/// The statement that asks the server for its version, run as a one-row query.
pub fn version_sql() -> (s: String)
    ensures
        s@ == seq_version_sql(),
{
    let q = ['S', 'E', 'L', 'E', 'C', 'T', ' ', 'v', 'e', 'r', 's', 'i', 'o', 'n', '(', ')'];
    assert(q@ == seq_version_sql());
    string_of(&q)
}

/// The server version from the one-row query `SELECT version()`: its error is the result; no
/// row gives the empty version; a row gives its single text column, or the error with which
/// reading that column failed.
pub fn version_from_row(row: Result<Option<Result<String, DriverError>>, DriverError>) -> (r: Result<
    String,
    DriverError,
>)
    ensures
        row matches Err(e) ==> r == Err::<String, DriverError>(e),
        row matches Ok(None) ==> (r matches Ok(v) && v@.len() == 0),
        row matches Ok(Some(c)) ==> r == c,
{
    match row {
        Err(e) => Err(e),
        Ok(None) => Ok(String::new()),
        Ok(Some(c)) => c,
    }
}

// ---------------------------------------------------------------------------------------------
// Paging through the rows of a result
// ---------------------------------------------------------------------------------------------

/// The state of a result that arrives in pages: the rows of the current page not handed out
/// yet, the query id and the URI of the next page, and whether a page request is in flight.
pub struct RowPages {
    data: VecDeque<Vec<String>>,
    query_id: String,
    next_uri: Option<String>,
    page_pending: bool,
}

pub ghost struct RowPagesView {
    pub data: Seq<Vec<String>>,
    pub query_id: String,
    pub next_uri: Option<String>,
    pub page_pending: bool,
}

impl View for RowPages {
    type V = RowPagesView;

    closed spec fn view(&self) -> RowPagesView {
        RowPagesView {
            data: self.data@,
            query_id: self.query_id,
            next_uri: self.next_uri,
            page_pending: self.page_pending,
        }
    }
}

/// What the consumer of a paged result does next.
pub enum RowStep {
    /// Hand out this row.
    Row(Vec<String>),
    /// Request the page at `next_uri` of query `query_id`; report it with `page_arrived` (and
    /// hand out that page's statistics) or with `page_failed` (and hand out the error).
    FetchPage { query_id: String, next_uri: String },
    /// A page request is in flight: wait for it.
    AwaitPage,
    /// The result has no more rows.
    End,
}

/// One step of a paged result (see `RowPages::next_step`).
pub open spec fn step_spec(v: RowPagesView) -> (RowStep, RowPagesView) {
    if v.data.len() > 0 {
        (RowStep::Row(v.data[0]), RowPagesView { data: v.data.drop_first(), ..v })
    } else if v.page_pending {
        (RowStep::AwaitPage, v)
    } else {
        match v.next_uri {
            Some(u) => (
                RowStep::FetchPage { query_id: v.query_id, next_uri: u },
                RowPagesView { page_pending: true, ..v },
            ),
            None => (RowStep::End, v),
        }
    }
}

/// A page of a result as the server sends it: its query id, the URI of the page after it, and
/// its rows.
pub ghost struct Page {
    pub query_id: String,
    pub next_uri: Option<String>,
    pub data: Seq<Vec<String>>,
}

/// The state after the requested page `p` arrived.
pub open spec fn arrive_spec(p: Page) -> RowPagesView {
    RowPagesView { data: p.data, query_id: p.query_id, next_uri: p.next_uri, page_pending: false }
}

fn deque_of(rows: Vec<Vec<String>>) -> (d: VecDeque<Vec<String>>)
    ensures
        d@ == rows@,
{
    let mut d: VecDeque<Vec<String>> = VecDeque::new();
    let mut rows = rows;
    let ghost all = rows@;
    while rows.len() > 0
        invariant
            d@ + rows@ == all,
        decreases rows.len(),
    {
        let r = rows.remove(0);
        d.push_back(r);
        assert(d@ + rows@ =~= all);
    }
    assert(d@ =~= all);
    d
}

impl RowPages {
    /// The paged result that starts with the first reply of a query: its id, the URI of its
    /// next page if there is one, and the rows it carried.
    pub fn from_response(query_id: String, next_uri: Option<String>, data: Vec<Vec<String>>) -> (r:
        RowPages)
        ensures
            r@ == (RowPagesView { data: data@, query_id, next_uri, page_pending: false }),
    {
        RowPages { data: deque_of(data), query_id, next_uri, page_pending: false }
    }

    /// The next step: the first buffered row if there is one (removing it); else wait for a
    /// page in flight; else request the next page if there is one (and mark it in flight); else
    /// the end. A page is requested only when every row of the current page has been handed out.
    pub fn next_step(&mut self) -> (s: RowStep)
        ensures
            (s, final(self)@) == step_spec(old(self)@),
    {
        match self.data.pop_front() {
            Some(row) => {
                assert(old(self)@.data.drop_first() =~= self.data@);
                return RowStep::Row(row);
            },
            None => {},
        }
        if self.page_pending {
            return RowStep::AwaitPage;
        }
        match &self.next_uri {
            Some(uri) => {
                let step = RowStep::FetchPage { query_id: self.query_id.clone(), next_uri: uri.clone() };
                self.page_pending = true;
                step
            },
            None => RowStep::End,
        }
    }

    /// A requested page arrived: its rows replace the buffer, and its query id and next-page
    /// URI replace the current ones; no page is in flight any more. The consumer hands out the
    /// page's statistics before its rows.
    pub fn page_arrived(&mut self, query_id: String, next_uri: Option<String>, data: Vec<Vec<String>>)
        ensures
            final(self)@ == arrive_spec(Page { query_id, next_uri, data: data@ }),
    {
        self.data = deque_of(data);
        self.query_id = query_id;
        self.next_uri = next_uri;
        self.page_pending = false;
    }

    /// A page request failed: no page is in flight any more; the next step requests the same
    /// page again.
    pub fn page_failed(&mut self)
        ensures
            final(self)@ == (RowPagesView { page_pending: false, ..old(self)@ }),
    {
        self.page_pending = false;
    }
}

/// What the consumer of a paged result hands out.
pub ghost enum RowItem {
    Row(Vec<String>),
    /// The statistics of an arrived page.
    Stats(Page),
    End,
}

/// The weight of pages still to come: one for each page and one for each of its rows.
pub open spec fn pages_weight(pages: Seq<Page>) -> nat
    decreases pages.len(),
{
    if pages.len() == 0 {
        0
    } else {
        1 + pages[0].data.len() + pages_weight(pages.drop_first())
    }
}

/// Driving a paged result to its end, where every page request is answered by the next of
/// `pages`: the items handed out. (A request with no page left to answer it ends the run.)
pub open spec fn drive(v: RowPagesView, pages: Seq<Page>) -> Seq<RowItem>
    decreases v.data.len() + pages_weight(pages), 1nat,
{
    let (s, v2) = step_spec(v);
    match s {
        RowStep::Row(r) => seq![RowItem::Row(r)] + drive(v2, pages),
        RowStep::FetchPage { .. } => if pages.len() > 0 {
            seq![RowItem::Stats(pages[0])] + drive(arrive_spec(pages[0]), pages.drop_first())
        } else {
            Seq::empty()
        },
        RowStep::AwaitPage => Seq::empty(),
        RowStep::End => seq![RowItem::End],
    }
}

/// The items of the pages `pages`, each page's statistics followed by its rows.
pub open spec fn pages_items(pages: Seq<Page>) -> Seq<RowItem>
    decreases pages.len(),
{
    if pages.len() == 0 {
        Seq::empty()
    } else {
        seq![RowItem::Stats(pages[0])] + pages[0].data.map_values(|r: Vec<String>| RowItem::Row(r))
            + pages_items(pages.drop_first())
    }
}

/// The pages form a chain that the state leads into: the state has a next page exactly when
/// pages remain, and each page but the last names a next page.
pub open spec fn chained(v: RowPagesView, pages: Seq<Page>) -> bool {
    &&& (v.next_uri is Some <==> pages.len() > 0)
    &&& forall|i: int| 0 <= i < pages.len() ==> (#[trigger] pages[i].next_uri is Some <==> i
        < pages.len() - 1)
}

/// Law: driving a paged result with no request in flight through a chain of pages hands out
/// the rows at hand in order, then for each page its statistics followed by its rows in order,
/// and then the end: no row is lost, repeated or reordered.
pub proof fn pages_drain_in_order(v: RowPagesView, pages: Seq<Page>)
    requires
        !v.page_pending,
        chained(v, pages),
    ensures
        drive(v, pages) == v.data.map_values(|r: Vec<String>| RowItem::Row(r)) + pages_items(pages)
            + seq![RowItem::End],
    decreases v.data.len() + pages_weight(pages),
{
    if v.data.len() > 0 {
        let v2 = RowPagesView { data: v.data.drop_first(), ..v };
        pages_drain_in_order(v2, pages);
        assert(v.data.map_values(|r: Vec<String>| RowItem::Row(r)) =~= seq![RowItem::Row(v.data[0])]
            + v2.data.map_values(|r: Vec<String>| RowItem::Row(r)));
        assert(drive(v, pages) == seq![RowItem::Row(v.data[0])] + drive(v2, pages));
        assert(drive(v, pages) =~= v.data.map_values(|r: Vec<String>| RowItem::Row(r)) + pages_items(
            pages,
        ) + seq![RowItem::End]);
    } else if v.next_uri is Some {
        let rest = pages.drop_first();
        let v2 = arrive_spec(pages[0]);
        assert(chained(v2, rest)) by {
            assert forall|i: int| 0 <= i < rest.len() implies (#[trigger] rest[i].next_uri is Some
                <==> i < rest.len() - 1) by {
                assert(rest[i] == pages[i + 1]);
            }
            assert(pages[0].next_uri is Some <==> 0 < pages.len() - 1);
        }
        pages_drain_in_order(v2, rest);
        assert(v.data.map_values(|r: Vec<String>| RowItem::Row(r)) =~= Seq::<RowItem>::empty());
        assert(drive(v, pages) == seq![RowItem::Stats(pages[0])] + drive(v2, rest));
        assert(drive(v, pages) =~= v.data.map_values(|r: Vec<String>| RowItem::Row(r)) + pages_items(
            pages,
        ) + seq![RowItem::End]);
    } else {
        assert(v.data.map_values(|r: Vec<String>| RowItem::Row(r)) =~= Seq::<RowItem>::empty());
        assert(pages_items(pages) =~= Seq::<RowItem>::empty());
        assert(drive(v, pages) =~= seq![RowItem::End]);
    }
}

} // verus!
