//! The shell session: classifying statements, splitting input lines into
//! statements, deciding what to do with each statement, and rendering the
//! prompt.
use vstd::prelude::*;

use crate::conn::ConnectionInfo;
use crate::text::{
    chars_of, extend_chars, has_prefix, slice_chars, split_words, string_of, trim_class,
    CharClass, starts_with, trim, words, replace_all, decimal, trim_start_class,
    trim_end_class, replace_chars, decimal_chars, contains_chars, contains_seq, signed_decimal,
    signed_decimal_chars,
};
use crate::tokenizer::{
    kw_delete, kw_insert, kw_update, lemma_not_spells_at_first, tokenize, tokens_of,
    tokens_are_well_placed, well_placed, Token, TokenKind,
};

verus! {

/// The kind of a statement, from its first token.
#[derive(Clone, Copy, PartialEq, Eq, Structural, Debug)]
pub enum QueryKind {
    Query,
    Update,
    Explain,
    Put,
    Get,
}

/// The kind of a statement whose tokens are `toks`.
pub open spec fn kind_of_tokens(toks: Seq<Token>) -> QueryKind {
    if toks.len() == 0 {
        QueryKind::Query
    } else {
        match toks[0].kind {
            TokenKind::Explain => QueryKind::Explain,
            TokenKind::Put => QueryKind::Put,
            TokenKind::Get => QueryKind::Get,
            TokenKind::Alter | TokenKind::Delete | TokenKind::Update | TokenKind::Insert
            | TokenKind::Create | TokenKind::Drop | TokenKind::Optimize => QueryKind::Update,
            _ => QueryKind::Query,
        }
    }
}

/// The kind of the statement `q`.
pub open spec fn query_kind(q: Seq<char>) -> QueryKind {
    kind_of_tokens(tokens_of(q))
}

impl<'a> From<&'a str> for QueryKind {
    /// Classifies a statement by its first token.
    fn from(query: &'a str) -> (k: QueryKind) {
        let chars = chars_of(query);
        kind_of_chars(&chars)
    }
}

impl<'a> vstd::std_specs::convert::FromSpecImpl<&'a str> for QueryKind {
    open spec fn obeys_from_spec() -> bool {
        true
    }

    open spec fn from_spec(query: &'a str) -> QueryKind {
        query_kind(query@)
    }
}

fn kind_of_chars(q: &[char]) -> (k: QueryKind)
    ensures
        k == query_kind(q@),
{
    let toks = tokenize(q);
    if toks.tokens.len() == 0 {
        QueryKind::Query
    } else {
        match toks.tokens[0].kind {
            TokenKind::Explain => QueryKind::Explain,
            TokenKind::Put => QueryKind::Put,
            TokenKind::Get => QueryKind::Get,
            TokenKind::Alter | TokenKind::Delete | TokenKind::Update | TokenKind::Insert
            | TokenKind::Create | TokenKind::Drop | TokenKind::Optimize => QueryKind::Update,
            _ => QueryKind::Query,
        }
    }
}

/// Whether the box display of the result of `q` replaces line feeds: not for `EXPLAIN`, and
/// not for `SHOW CREATE`; for everything else it does.
pub open spec fn replaces_newline(q: Seq<char>) -> bool {
    let toks = tokens_of(q);
    if toks.len() == 0 {
        true
    } else if toks[0].kind == TokenKind::Explain {
        false
    } else if toks[0].kind == TokenKind::Show {
        !(toks.len() > 1 && toks[1].kind == TokenKind::Create)
    } else {
        true
    }
}

fn replaces_newline_chars(q: &[char]) -> (b: bool)
    ensures
        b == replaces_newline(q@),
{
    let toks = tokenize(q);
    if toks.tokens.len() == 0 {
        true
    } else if toks.tokens[0].kind == TokenKind::Explain {
        false
    } else if toks.tokens[0].kind == TokenKind::Show {
        !(toks.tokens.len() > 1 && toks.tokens[1].kind == TokenKind::Create)
    } else {
        true
    }
}

/// Whether the box display of the result of `query` replaces line feeds.
pub fn replace_newline_in_box_display(query: &str) -> (b: bool)
    ensures
        b == replaces_newline(query@),
{
    let chars = chars_of(query);
    replaces_newline_chars(&chars)
}

fn strings_of(ws: &Vec<Vec<char>>) -> (r: Vec<String>)
    ensures
        r@.map_values(|s: String| s@) == ws@.map_values(|w: Vec<char>| w@),
{
    let mut r: Vec<String> = Vec::new();
    let mut k: usize = 0;
    while k < ws.len()
        invariant
            k <= ws@.len(),
            r@.map_values(|s: String| s@) == ws@.subrange(0, k as int).map_values(|w: Vec<char>| w@),
        decreases ws.len() - k,
    {
        let ghost before = r@.map_values(|s: String| s@);
        r.push(string_of(ws[k].as_slice()));
        assert(r@.map_values(|s: String| s@) =~= before.push(ws@[k as int]@));
        assert(ws@.subrange(0, k + 1).map_values(|w: Vec<char>| w@) =~= ws@.subrange(
            0,
            k as int,
        ).map_values(|w: Vec<char>| w@).push(ws@[k as int]@));
        k = k + 1;
    }
    assert(ws@.subrange(0, ws@.len() as int) =~= ws@);
    r
}

/// The arguments of a `PUT`/`GET` statement: its words, split at ASCII whitespace.
pub fn get_put_get_args(query: &str) -> (args: Vec<String>)
    ensures
        args@.map_values(|s: String| s@) == words(query@, CharClass::AsciiWhitespace),
{
    let chars = chars_of(query);
    let ws = split_words(&chars, CharClass::AsciiWhitespace);
    strings_of(&ws)
}

// ---------------------------------------------------------------------------------------------
// Splitting input lines into statements
// ---------------------------------------------------------------------------------------------

/// The state of the statement splitter while it walks over the tokens of one line.
#[verifier::ext_equal]
pub ghost struct SplitState {
    /// The pending statement text.
    pub query: Seq<char>,
    /// Inside a `/* ... */` block (this carries over between lines).
    pub in_block: bool,
    /// Inside a `--` comment (this ends with the line or at a line feed).
    pub in_comment: bool,
    /// Where the text that the next ordinary token brings along starts.
    pub start: int,
    /// Where the current comment block started on this line (0 if it started on an earlier one).
    pub block_start: int,
    /// The statements completed so far.
    pub out: Seq<Seq<char>>,
}

/// One step of the splitter over the token `t` of `line`.
///
/// A `;` outside comments completes the pending statement, trimmed and followed by `;`, unless
/// it is blank; a `;` that completes nothing (inside a comment, or with a blank pending
/// statement) leaves the text before it to the next ordinary token. Ordinary tokens outside
/// comments add the text from the end of the previous token up to their own end. A line
/// comment drops its text; a comment block is kept whole and added when it closes.
pub open spec fn split_step(line: Seq<char>, st: SplitState, t: Token) -> SplitState {
    match t.kind {
        TokenKind::SemiColon => {
            if st.in_comment || st.in_block || trim(st.query).len() == 0 {
                st
            } else {
                SplitState {
                    out: st.out.push(trim(st.query).push(';')),
                    query: Seq::empty(),
                    start: t.end as int,
                    ..st
                }
            }
        },
        TokenKind::Comment => SplitState { in_comment: true, start: t.end as int, ..st },
        TokenKind::EOI => SplitState { in_comment: false, start: t.end as int, ..st },
        TokenKind::Newline => SplitState {
            in_comment: false,
            query: st.query.push('\n'),
            start: t.end as int,
            ..st
        },
        TokenKind::CommentBlockStart => SplitState {
            block_start: if st.in_block {
                st.block_start
            } else {
                t.start as int
            },
            in_block: true,
            start: t.end as int,
            ..st
        },
        TokenKind::CommentBlockEnd => SplitState {
            in_block: false,
            query: st.query + line.subrange(st.block_start, t.end as int),
            start: t.end as int,
            ..st
        },
        _ => SplitState {
            query: if !st.in_comment && !st.in_block {
                st.query + line.subrange(st.start, t.end as int)
            } else {
                st.query
            },
            start: t.end as int,
            ..st
        },
    }
}

/// The splitter run over the tokens `toks` of `line`, from state `st`.
pub open spec fn split_fold(line: Seq<char>, st: SplitState, toks: Seq<Token>) -> SplitState
    decreases toks.len(),
{
    if toks.len() == 0 {
        st
    } else {
        split_fold(line, split_step(line, st, toks[0]), toks.drop_first())
    }
}

/// The session state that the statement splitter reads and keeps.
pub ghost struct SessionView {
    /// The pending (unfinished) statement.
    pub query: Seq<char>,
    /// Whether the input is inside a `/* ... */` block.
    pub in_comment_block: bool,
    /// Whether statements may span lines (else each line is a statement).
    pub multi_line: bool,
    /// Whether results are shown with line feeds replaced, where the statement allows it.
    pub replace_newline: bool,
}

pub open spec fn seq_exit() -> Seq<char> {
    seq!['e', 'x', 'i', 't']
}

pub open spec fn seq_quit() -> Seq<char> {
    seq!['q', 'u', 'i', 't']
}

pub open spec fn seq_dashes() -> Seq<char> {
    seq!['-', '-']
}

/// `line.to_uppercase().starts_with("PUT")`: the first two characters are `p`/`P` and
/// `u`/`U`, and the third is `t`, `T`, or `ẗ` (whose uppercase form begins with `T`).
pub open spec fn starts_with_put(line: Seq<char>) -> bool {
    &&& line.len() >= 3
    &&& (line[0] == 'p' || line[0] == 'P')
    &&& (line[1] == 'u' || line[1] == 'U')
    &&& (line[2] == 't' || line[2] == 'T' || line[2] == '\u{1e97}')
}

/// A line that is passed through whole when no statement is pending: shell commands
/// (`.name value`), `exit`, `quit`, and `PUT` statements.
pub open spec fn is_shell_line(line: Seq<char>) -> bool {
    ||| starts_with(line, seq!['.'])
    ||| line == seq_exit()
    ||| line == seq_quit()
    ||| starts_with_put(line)
}

/// The splitter state at the start of a line in multi-line mode.
pub open spec fn split_start(st: SessionView) -> SplitState {
    SplitState {
        query: st.query.push(' '),
        in_block: st.in_comment_block,
        in_comment: false,
        start: 0,
        block_start: 0,
        out: Seq::empty(),
    }
}

/// What appending the input line `raw` does: the new session state and the completed
/// statements, in order.
pub open spec fn append_spec(st: SessionView, raw: Seq<char>) -> (SessionView, Seq<Seq<char>>) {
    let line = trim(raw);
    if line.len() == 0 {
        (st, Seq::empty())
    } else if st.query.len() == 0 && is_shell_line(line) {
        (st, seq![line])
    } else if !st.multi_line {
        if starts_with(line, seq_dashes()) {
            (st, Seq::empty())
        } else {
            (st, seq![line])
        }
    } else {
        let fin = split_fold(line, split_start(st), tokens_of(line));
        let query = if fin.in_block {
            fin.query + line.subrange(fin.block_start, line.len() as int)
        } else {
            fin.query
        };
        (SessionView { query: query, in_comment_block: fin.in_block, ..st }, fin.out)
    }
}

/// What the shell does with one statement.
pub enum QueryPlan {
    /// Leave the shell.
    Exit,
    /// Apply the shell setting `name` with `value`.
    ControlCommand { name: String, value: String },
    /// A shell command that is not of the form `.name value`.
    ControlCommandError,
    /// Execute an update statement and report the affected rows.
    Exec { query: String },
    /// Upload the local files `src` to the stage location `dst`.
    PutFiles { query: String, src: String, dst: String, replace_newline: bool },
    /// Download the stage files `src` to the local location `dst`.
    GetFiles { query: String, src: String, dst: String, replace_newline: bool },
    /// A `PUT`/`GET` statement that does not have exactly two arguments.
    InvalidPutGetArgs,
    /// Run the statement and display its rows.
    Query { query: String, replace_newline: bool },
}

pub ghost enum PlanView {
    Exit,
    ControlCommand { name: Seq<char>, value: Seq<char> },
    ControlCommandError,
    Exec { query: Seq<char> },
    PutFiles { query: Seq<char>, src: Seq<char>, dst: Seq<char>, replace_newline: bool },
    GetFiles { query: Seq<char>, src: Seq<char>, dst: Seq<char>, replace_newline: bool },
    InvalidPutGetArgs,
    Query { query: Seq<char>, replace_newline: bool },
}

impl View for QueryPlan {
    type V = PlanView;

    open spec fn view(&self) -> PlanView {
        match self {
            QueryPlan::Exit => PlanView::Exit,
            QueryPlan::ControlCommand { name, value } => PlanView::ControlCommand {
                name: name@,
                value: value@,
            },
            QueryPlan::ControlCommandError => PlanView::ControlCommandError,
            QueryPlan::Exec { query } => PlanView::Exec { query: query@ },
            QueryPlan::PutFiles { query, src, dst, replace_newline } => PlanView::PutFiles {
                query: query@,
                src: src@,
                dst: dst@,
                replace_newline: *replace_newline,
            },
            QueryPlan::GetFiles { query, src, dst, replace_newline } => PlanView::GetFiles {
                query: query@,
                src: src@,
                dst: dst@,
                replace_newline: *replace_newline,
            },
            QueryPlan::InvalidPutGetArgs => PlanView::InvalidPutGetArgs,
            QueryPlan::Query { query, replace_newline } => PlanView::Query {
                query: query@,
                replace_newline: *replace_newline,
            },
        }
    }
}

/// `str::trim_end_matches(';')`.
pub open spec fn without_trailing_semicolons(raw: Seq<char>) -> Seq<char> {
    crate::text::trim_end_by(raw, CharClass::Semicolon)
}

/// What the shell does with the statement `raw`, given whether it runs interactively and
/// whether the line-feed replacement setting is on. The display flag `replace_newline` of a
/// planned statement is set whenever the setting is on; with the setting off it is set
/// exactly when `replaces_newline` does not hold of the statement.
pub open spec fn plan_spec(is_repl: bool, replace_setting: bool, raw: Seq<char>) -> PlanView {
    let q = trim(without_trailing_semicolons(raw));
    if is_repl && (q == seq_exit() || q == seq_quit()) {
        PlanView::Exit
    } else if is_repl && starts_with(q, seq!['.']) {
        let ws = words(crate::text::trim_start_by(q, CharClass::Dot), CharClass::Whitespace);
        if ws.len() != 2 {
            PlanView::ControlCommandError
        } else {
            PlanView::ControlCommand { name: ws[0], value: ws[1] }
        }
    } else {
        let kind = query_kind(q);
        if kind == QueryKind::Update && !is_repl {
            PlanView::Exec { query: q }
        } else {
            let rn = !(if replace_setting { false } else { replaces_newline(q) });
            if kind == QueryKind::Put || kind == QueryKind::Get {
                let args = words(q, CharClass::AsciiWhitespace);
                if args.len() != 3 {
                    PlanView::InvalidPutGetArgs
                } else if kind == QueryKind::Put {
                    PlanView::PutFiles { query: q, src: args[1], dst: args[2], replace_newline: rn }
                } else {
                    PlanView::GetFiles { query: q, src: args[1], dst: args[2], replace_newline: rn }
                }
            } else {
                PlanView::Query { query: q, replace_newline: rn }
            }
        }
    }
}

/// The prompt template placeholders.
pub open spec fn ph_host() -> Seq<char> {
    seq!['{', 'h', 'o', 's', 't', '}']
}

pub open spec fn ph_user() -> Seq<char> {
    seq!['{', 'u', 's', 'e', 'r', '}']
}

pub open spec fn ph_port() -> Seq<char> {
    seq!['{', 'p', 'o', 'r', 't', '}']
}

pub open spec fn ph_database() -> Seq<char> {
    seq!['{', 'd', 'a', 't', 'a', 'b', 'a', 's', 'e', '}']
}

pub open spec fn ph_warehouse() -> Seq<char> {
    seq!['{', 'w', 'a', 'r', 'e', 'h', 'o', 'u', 's', 'e', '}']
}

pub open spec fn seq_default() -> Seq<char> {
    seq!['d', 'e', 'f', 'a', 'u', 'l', 't']
}

/// The prompt for a fresh statement: the template with `{host}`, `{user}`, `{port}`,
/// `{database}` (or `default`) and `{warehouse}` (as `(name)`, or else `host:port`) replaced
/// in that order, trailing whitespace removed, and one space added.
pub open spec fn fresh_prompt(
    template: Seq<char>,
    host: Seq<char>,
    user: Seq<char>,
    port: u16,
    database: Option<Seq<char>>,
    warehouse: Option<Seq<char>>,
) -> Seq<char> {
    let p1 = replace_all(template, ph_host(), host);
    let p2 = replace_all(p1, ph_user(), user);
    let p3 = replace_all(p2, ph_port(), decimal(port as nat));
    let p4 = replace_all(
        p3,
        ph_database(),
        match database {
            Some(d) => d,
            None => seq_default(),
        },
    );
    let p5 = replace_all(
        p4,
        ph_warehouse(),
        match warehouse {
            Some(w) => seq!['('] + w + seq![')'],
            None => host + seq![':'] + decimal(port as nat),
        },
    );
    crate::text::trim_end_by(p5, CharClass::Whitespace).push(' ')
}

/// The shell session state that statement splitting and planning work on.
pub struct Session {
    query: Vec<char>,
    in_comment_block: bool,
    multi_line: bool,
    replace_newline: bool,
}

impl View for Session {
    type V = SessionView;

    closed spec fn view(&self) -> SessionView {
        SessionView {
            query: self.query@,
            in_comment_block: self.in_comment_block,
            multi_line: self.multi_line,
            replace_newline: self.replace_newline,
        }
    }
}

impl Session {
    /// A session with nothing pending, with the given settings.
    pub fn new(multi_line: bool, replace_newline: bool) -> (s: Session)
        ensures
            s@ == (SessionView {
                query: Seq::empty(),
                in_comment_block: false,
                multi_line,
                replace_newline,
            }),
    {
        Session { query: Vec::new(), in_comment_block: false, multi_line, replace_newline }
    }

    /// Changes the settings (after a shell command); the pending statement is kept.
    pub fn set_settings(&mut self, multi_line: bool, replace_newline: bool)
        ensures
            final(self)@ == (SessionView { multi_line, replace_newline, ..old(self)@ }),
    {
        self.multi_line = multi_line;
        self.replace_newline = replace_newline;
    }

    /// The pending statement text.
    pub fn pending(&self) -> (s: String)
        ensures
            s@ == self@.query,
    {
        string_of(self.query.as_slice())
    }

    /// Drops the pending statement (after an interrupt or an error).
    pub fn clear_query(&mut self)
        ensures
            final(self)@ == (SessionView { query: Seq::empty(), ..old(self)@ }),
    {
        self.query = Vec::new();
    }

    /// Takes the pending statement at the end of the input: its trimmed text if it is not
    /// blank (and then nothing is pending any more), else `None` (and the state is unchanged).
    pub fn take_pending_query(&mut self) -> (r: Option<String>)
        ensures
            trim(old(self)@.query).len() == 0 ==> r is None && final(self)@ == old(self)@,
            trim(old(self)@.query).len() > 0 ==> (r matches Some(q) && q@ == trim(old(self)@.query)),
            trim(old(self)@.query).len() > 0 ==> final(self)@ == (SessionView {
                query: Seq::empty(),
                ..old(self)@
            }),
    {
        let t = trim_class(self.query.as_slice(), CharClass::Whitespace);
        if t.len() == 0 {
            None
        } else {
            self.query = Vec::new();
            Some(string_of(t.as_slice()))
        }
    }
}

fn is_shell_line_exec(line: &[char]) -> (b: bool)
    ensures
        b == is_shell_line(line@),
{
    let dot = ['.'];
    let exit = ['e', 'x', 'i', 't'];
    let quit = ['q', 'u', 'i', 't'];
    assert(dot@ == seq!['.']);
    assert(exit@ == seq_exit());
    assert(quit@ == seq_quit());
    let is_exit = line.len() == 4 && has_prefix(line, &exit);
    let is_quit = line.len() == 4 && has_prefix(line, &quit);
    proof {
        if line@.len() == 4 {
            assert(line@.subrange(0, 4) =~= line@);
        }
    }
    let put = line.len() >= 3 && (line[0] == 'p' || line[0] == 'P') && (line[1] == 'u' || line[1]
        == 'U') && (line[2] == 't' || line[2] == 'T' || line[2] == '\u{1e97}');
    has_prefix(line, &dot) || is_exit || is_quit || put
}

fn push_string(out: &mut Vec<String>, s: &[char])
    ensures
        final(out)@.map_values(|x: String| x@) == old(out)@.map_values(|x: String| x@).push(s@),
{
    let ghost before = out@.map_values(|x: String| x@);
    out.push(string_of(s));
    assert(out@.map_values(|x: String| x@) =~= before.push(s@));
}

impl Session {
    /// Feeds one input line to the statement splitter and returns the statements it completes.
    ///
    /// The line is trimmed; a blank line does nothing. When no statement is pending, a shell
    /// command (`.name value`), `exit`, `quit` or a `PUT` statement is returned whole. Without
    /// multi-line mode each line is a statement of its own, except `--` comment lines, which are
    /// dropped. In multi-line mode the line is tokenized and joined to the pending statement,
    /// and each `;` outside comments completes a statement (see `split_step`).
    pub fn append_query(&mut self, line: &str) -> (queries: Vec<String>)
        ensures
            final(self)@ == append_spec(old(self)@, line@).0,
            queries@.map_values(|s: String| s@) == append_spec(old(self)@, line@).1,
    {
        let raw = chars_of(line);
        let line = trim_class(raw.as_slice(), CharClass::Whitespace);
        let mut out: Vec<String> = Vec::new();
        if line.len() == 0 {
            assert(out@.map_values(|s: String| s@) =~= Seq::<Seq<char>>::empty());
            return out;
        }
        if self.query.len() == 0 && is_shell_line_exec(line.as_slice()) {
            push_string(&mut out, line.as_slice());
            assert(Seq::<Seq<char>>::empty().push(line@) =~= seq![line@]);
            return out;
        }
        if !self.multi_line {
            let dashes = ['-', '-'];
            assert(dashes@ == seq_dashes());
            if has_prefix(line.as_slice(), &dashes) {
                assert(out@.map_values(|s: String| s@) =~= Seq::<Seq<char>>::empty());
                return out;
            } else {
                push_string(&mut out, line.as_slice());
                assert(Seq::<Seq<char>>::empty().push(line@) =~= seq![line@]);
                return out;
            }
        }
        let ghost st0 = self@;
        self.query.push(' ');
        self.split_line(line.as_slice(), Ghost(st0))
    }

    fn split_line(&mut self, line: &[char], Ghost(st0): Ghost<SessionView>) -> (queries: Vec<
        String,
    >)
        requires
            old(self)@ == (SessionView { query: st0.query.push(' '), ..st0 }),
        ensures
            final(self)@ == (SessionView {
                query: if split_fold(line@, split_start(st0), tokens_of(line@)).in_block {
                    split_fold(line@, split_start(st0), tokens_of(line@)).query + line@.subrange(
                        split_fold(line@, split_start(st0), tokens_of(line@)).block_start,
                        line@.len() as int,
                    )
                } else {
                    split_fold(line@, split_start(st0), tokens_of(line@)).query
                },
                in_comment_block: split_fold(line@, split_start(st0), tokens_of(line@)).in_block,
                ..st0
            }),
            queries@.map_values(|s: String| s@) == split_fold(
                line@,
                split_start(st0),
                tokens_of(line@),
            ).out,
    {
        let toks = tokenize(line);
        let n = toks.tokens.len();
        assert(line@.len() == line.len());
        proof {
            tokens_are_well_placed(line@);
        }
        let ghost all = toks.tokens@;
        let ghost init = split_start(st0);
        let mut in_comment = false;
        let mut start: usize = 0;
        let mut block_start: usize = 0;
        let mut out: Vec<String> = Vec::new();
        let mut i: usize = 0;
        assert(all.skip(0) =~= all);
        assert(init =~= (SplitState {
            query: self.query@,
            in_block: self.in_comment_block,
            in_comment,
            start: start as int,
            block_start: block_start as int,
            out: out@.map_values(|s: String| s@),
        }));
        while i < n
            invariant
                n == all.len(),
                all == toks.tokens@,
                all == tokens_of(line@),
                well_placed(all, line@.len() as int),
                i <= n,
                block_start <= start <= line@.len(),
                i < n ==> start <= all[i as int].start,
                self.multi_line == st0.multi_line,
                self.replace_newline == st0.replace_newline,
                split_fold(
                    line@,
                    SplitState {
                        query: self.query@,
                        in_block: self.in_comment_block,
                        in_comment,
                        start: start as int,
                        block_start: block_start as int,
                        out: out@.map_values(|s: String| s@),
                    },
                    all.skip(i as int),
                ) == split_fold(line@, init, all),
            decreases n - i,
        {
            let ghost cur = SplitState {
                query: self.query@,
                in_block: self.in_comment_block,
                in_comment,
                start: start as int,
                block_start: block_start as int,
                out: out@.map_values(|s: String| s@),
            };
            let t = toks.tokens[i];
            assert(all.skip(i as int)[0] == t);
            assert(all.skip(i as int).drop_first() =~= all.skip(i + 1));
            assert(t.start <= t.end <= line@.len());
            match t.kind {
                TokenKind::SemiColon => {
                    if in_comment || self.in_comment_block {
                    } else {
                        let sql = trim_class(self.query.as_slice(), CharClass::Whitespace);
                        if sql.len() == 0 {
                        } else {
                            let mut s = sql;
                            s.push(';');
                            push_string(&mut out, s.as_slice());
                            self.query = Vec::new();
                            start = t.end;
                        }
                    }
                },
                TokenKind::Comment => {
                    in_comment = true;
                    start = t.end;
                },
                TokenKind::EOI => {
                    in_comment = false;
                    start = t.end;
                },
                TokenKind::Newline => {
                    in_comment = false;
                    self.query.push('\n');
                    start = t.end;
                },
                TokenKind::CommentBlockStart => {
                    if !self.in_comment_block {
                        block_start = t.start;
                    }
                    self.in_comment_block = true;
                    start = t.end;
                },
                TokenKind::CommentBlockEnd => {
                    self.in_comment_block = false;
                    let piece = slice_chars(line, block_start, t.end);
                    extend_chars(&mut self.query, piece.as_slice());
                    start = t.end;
                },
                _ => {
                    if !in_comment && !self.in_comment_block {
                        let piece = slice_chars(line, start, t.end);
                        extend_chars(&mut self.query, piece.as_slice());
                    }
                    start = t.end;
                },
            }
            assert((SplitState {
                query: self.query@,
                in_block: self.in_comment_block,
                in_comment,
                start: start as int,
                block_start: block_start as int,
                out: out@.map_values(|s: String| s@),
            }) =~= split_step(line@, cur, t));
            i = i + 1;
        }
        if self.in_comment_block {
            let piece = slice_chars(line, block_start, line.len());
            extend_chars(&mut self.query, piece.as_slice());
        }
        out
    }
}

/// The view of an optional string.
pub open spec fn opt_view(o: Option<String>) -> Option<Seq<char>> {
    match o {
        Some(s) => Some(s@),
        None => None,
    }
}

/// The word that marks an expired or missing login in a server error.
pub open spec fn seq_unauthenticated() -> Seq<char> {
    seq!['U', 'n', 'a', 'u', 't', 'h', 'e', 'n', 't', 'i', 'c', 'a', 't', 'e', 'd']
}

/// Whether a failed statement should be retried on a new connection: its error message
/// mentions `Unauthenticated`.
pub fn needs_reconnect(message: &str) -> (b: bool)
    ensures
        b == contains_seq(message@, seq_unauthenticated()),
{
    let m = chars_of(message);
    let word = ['U', 'n', 'a', 'u', 't', 'h', 'e', 'n', 't', 'i', 'c', 'a', 't', 'e', 'd'];
    assert(word@ == seq_unauthenticated());
    contains_chars(m.as_slice(), &word)
}

fn is_word4(q: &[char], w: &[char; 4]) -> (b: bool)
    ensures
        b == (q@ == w@),
{
    let r = q.len() == 4 && has_prefix(q, w);
    proof {
        if q@.len() == 4 {
            assert(q@.subrange(0, 4) =~= q@);
        }
    }
    r
}

impl Session {
    /// Decides what the shell does with the statement `query` (see `plan_spec`).
    pub fn handle_query(&self, is_repl: bool, query: &str) -> (plan: QueryPlan)
        ensures
            plan@ == plan_spec(is_repl, self@.replace_newline, query@),
    {
        let raw = chars_of(query);
        let semi = trim_end_class(raw.as_slice(), CharClass::Semicolon);
        let q = trim_class(semi.as_slice(), CharClass::Whitespace);
        let exit = ['e', 'x', 'i', 't'];
        let quit = ['q', 'u', 'i', 't'];
        assert(exit@ == seq_exit());
        assert(quit@ == seq_quit());
        if is_repl && (is_word4(q.as_slice(), &exit) || is_word4(q.as_slice(), &quit)) {
            return QueryPlan::Exit;
        }
        let dot = ['.'];
        assert(dot@ == seq!['.']);
        if is_repl && has_prefix(q.as_slice(), &dot) {
            let rest = trim_start_class(q.as_slice(), CharClass::Dot);
            let ws = split_words(rest.as_slice(), CharClass::Whitespace);
            if ws.len() != 2 {
                return QueryPlan::ControlCommandError;
            }
            assert(ws@.map_values(|w: Vec<char>| w@)[0] == ws@[0]@);
            assert(ws@.map_values(|w: Vec<char>| w@)[1] == ws@[1]@);
            return QueryPlan::ControlCommand {
                name: string_of(ws[0].as_slice()),
                value: string_of(ws[1].as_slice()),
            };
        }
        let kind = kind_of_chars(q.as_slice());
        if kind == QueryKind::Update && !is_repl {
            return QueryPlan::Exec { query: string_of(q.as_slice()) };
        }
        let rn = !(if self.replace_newline { false } else { replaces_newline_chars(q.as_slice()) });
        if kind == QueryKind::Put || kind == QueryKind::Get {
            let args = split_words(q.as_slice(), CharClass::AsciiWhitespace);
            if args.len() != 3 {
                return QueryPlan::InvalidPutGetArgs;
            }
            assert(args@.map_values(|w: Vec<char>| w@)[1] == args@[1]@);
            assert(args@.map_values(|w: Vec<char>| w@)[2] == args@[2]@);
            let query = string_of(q.as_slice());
            let src = string_of(args[1].as_slice());
            let dst = string_of(args[2].as_slice());
            if kind == QueryKind::Put {
                QueryPlan::PutFiles { query, src, dst, replace_newline: rn }
            } else {
                QueryPlan::GetFiles { query, src, dst, replace_newline: rn }
            }
        } else {
            QueryPlan::Query { query: string_of(q.as_slice()), replace_newline: rn }
        }
    }

    /// The prompt: `> ` while a statement is pending, else the rendered template (see
    /// `fresh_prompt`).
    pub fn prompt(&self, info: &ConnectionInfo, template: &str) -> (p: String)
        ensures
            trim(self@.query).len() > 0 ==> p@ == seq!['>', ' '],
            trim(self@.query).len() == 0 ==> p@ == fresh_prompt(
                template@,
                info.host@,
                info.user@,
                info.port,
                opt_view(info.database),
                opt_view(info.warehouse),
            ),
    {
        let pending = trim_class(self.query.as_slice(), CharClass::Whitespace);
        if pending.len() > 0 {
            let mut v: Vec<char> = Vec::new();
            v.push('>');
            v.push(' ');
            assert(v@ =~= seq!['>', ' ']);
            return string_of(v.as_slice());
        }
        let host = chars_of(info.host.as_str());
        let user = chars_of(info.user.as_str());
        let port = decimal_chars(info.port as u64);
        let ph_h = ['{', 'h', 'o', 's', 't', '}'];
        let ph_u = ['{', 'u', 's', 'e', 'r', '}'];
        let ph_p = ['{', 'p', 'o', 'r', 't', '}'];
        let ph_d = ['{', 'd', 'a', 't', 'a', 'b', 'a', 's', 'e', '}'];
        let ph_w = ['{', 'w', 'a', 'r', 'e', 'h', 'o', 'u', 's', 'e', '}'];
        assert(ph_h@ == ph_host());
        assert(ph_u@ == ph_user());
        assert(ph_p@ == ph_port());
        assert(ph_d@ == ph_database());
        assert(ph_w@ == ph_warehouse());
        let t0 = chars_of(template);
        let p1 = replace_chars(t0.as_slice(), &ph_h, host.as_slice());
        let p2 = replace_chars(p1.as_slice(), &ph_u, user.as_slice());
        let p3 = replace_chars(p2.as_slice(), &ph_p, port.as_slice());
        let db: Vec<char> = match &info.database {
            Some(d) => chars_of(d.as_str()),
            None => {
                let dflt = ['d', 'e', 'f', 'a', 'u', 'l', 't'];
                assert(dflt@ == seq_default());
                let v = slice_chars(&dflt, 0, 7);
                assert(v@ =~= seq_default());
                v
            },
        };
        assert(dflt_ok(db@, opt_view(info.database)));
        let p4 = replace_chars(p3.as_slice(), &ph_d, db.as_slice());
        let mut wh: Vec<char> = Vec::new();
        match &info.warehouse {
            Some(w) => {
                wh.push('(');
                let wc = chars_of(w.as_str());
                extend_chars(&mut wh, wc.as_slice());
                wh.push(')');
            },
            None => {
                extend_chars(&mut wh, host.as_slice());
                wh.push(':');
                extend_chars(&mut wh, port.as_slice());
            },
        }
        assert(wh@ =~= match opt_view(info.warehouse) {
            Some(w) => seq!['('] + w + seq![')'],
            None => host@ + seq![':'] + decimal(info.port as nat),
        });
        let p5 = replace_chars(p4.as_slice(), &ph_w, wh.as_slice());
        let mut r = trim_end_class(p5.as_slice(), CharClass::Whitespace);
        r.push(' ');
        string_of(r.as_slice())
    }
}

/// How running a statement in the interactive shell ended.
pub enum QueryOutcome {
    /// The statement asked to leave the shell.
    Exit,
    /// The statement ran.
    Done,
    /// The statement failed with this message.
    Failed(String),
}

/// What the interactive shell does after a statement.
#[derive(Clone, Copy, PartialEq, Eq, Structural, Debug)]
pub enum ReplAction {
    /// Leave the shell.
    Exit,
    /// Go on with the next statement.
    Continue,
    /// Connect again and retry the statement.
    Reconnect,
    /// Report the error and drop the rest of the input line.
    Stop,
}

impl Session {
    /// The interactive shell's decision after a statement: leave on exit; go on after success;
    /// reconnect and retry when the error says the login is no longer valid; otherwise drop the
    /// pending statement and stop working through the line.
    pub fn after_query(&mut self, outcome: &QueryOutcome) -> (a: ReplAction)
        ensures
            a == outcome_action(*outcome),
            outcome is Exit ==> a == ReplAction::Exit && final(self)@ == old(self)@,
            outcome is Done ==> a == ReplAction::Continue && final(self)@ == old(self)@,
            outcome matches QueryOutcome::Failed(m) ==> (contains_seq(m@, seq_unauthenticated())
                ==> a == ReplAction::Reconnect && final(self)@ == old(self)@),
            outcome matches QueryOutcome::Failed(m) ==> (!contains_seq(m@, seq_unauthenticated())
                ==> a == ReplAction::Stop && final(self)@ == (SessionView {
                query: Seq::empty(),
                ..old(self)@
            })),
    {
        match outcome {
            QueryOutcome::Exit => ReplAction::Exit,
            QueryOutcome::Done => ReplAction::Continue,
            QueryOutcome::Failed(m) => {
                if needs_reconnect(m.as_str()) {
                    ReplAction::Reconnect
                } else {
                    self.clear_query();
                    ReplAction::Stop
                }
            },
        }
    }
}

/// What the interactive shell does about a statement that failed because its login was no
/// longer valid, once it has tried to connect again, and after running it once more.
pub enum RetryAction {
    /// Run the statement once more.
    Retry,
    /// Report this message and go on with the next statement.
    Report(String),
    /// Go on with the next statement.
    Continue,
}

pub open spec fn seq_reconnect_error() -> Seq<char> {
    seq!['r', 'e', 'c', 'o', 'n', 'n', 'e', 'c', 't', ' ', 'e', 'r', 'r', 'o', 'r', ':', ' ']
}

pub open spec fn seq_error_prefix() -> Seq<char> {
    seq!['e', 'r', 'r', 'o', 'r', ':', ' ']
}

fn prefixed(prefix: &[char], m: &String) -> (r: String)
    ensures
        r@ == prefix@ + m@,
{
    let mut v: Vec<char> = Vec::new();
    extend_chars(&mut v, prefix);
    let mc = chars_of(m.as_str());
    extend_chars(&mut v, mc.as_slice());
    string_of(v.as_slice())
}

/// After connecting again for a statement whose login had expired: a successful reconnect runs
/// the statement once more; a failed one is reported (`reconnect error: <message>`) and the
/// shell goes on.
pub fn after_reconnect(reconnected: &Result<(), String>) -> (a: RetryAction)
    ensures
        reconnected is Ok ==> a is Retry,
        reconnected matches Err(m) ==> (a matches RetryAction::Report(r) && r@
            == seq_reconnect_error() + m@),
{
    match reconnected {
        Ok(()) => RetryAction::Retry,
        Err(m) => {
            let p = ['r', 'e', 'c', 'o', 'n', 'n', 'e', 'c', 't', ' ', 'e', 'r', 'r', 'o', 'r', ':', ' '];
            assert(p@ == seq_reconnect_error());
            RetryAction::Report(prefixed(&p, m))
        },
    }
}

/// After the statement has run once more: it is never retried again and never leaves the
/// shell; a failure is reported (`error: <message>`) and the shell goes on with the pending
/// statement kept.
pub fn after_retry(outcome: &QueryOutcome) -> (a: RetryAction)
    ensures
        !(a is Retry),
        outcome matches QueryOutcome::Failed(m) ==> (a matches RetryAction::Report(r) && r@
            == seq_error_prefix() + m@),
        !(outcome is Failed) ==> a is Continue,
{
    match outcome {
        QueryOutcome::Failed(m) => {
            let p = ['e', 'r', 'r', 'o', 'r', ':', ' '];
            assert(p@ == seq_error_prefix());
            RetryAction::Report(prefixed(&p, m))
        },
        _ => RetryAction::Continue,
    }
}

pub open spec fn seq_spool_prefix() -> Seq<char> {
    seq!['b', 'e', 'n', 'd', 's', 'q', 'l', '_']
}

/// The name of the temporary file that standard input is spooled to before a streamed load,
/// after the current time in nanoseconds: `bendsql_<nanos>`; `None` without a timestamp.
pub fn stdin_spool_name(now_nanos: Option<i64>) -> (r: Option<String>)
    ensures
        now_nanos is None ==> r is None,
        now_nanos matches Some(n) ==> (r matches Some(s) && s@ == seq_spool_prefix()
            + signed_decimal(n as int)),
{
    match now_nanos {
        None => None,
        Some(n) => {
            let prefix = ['b', 'e', 'n', 'd', 's', 'q', 'l', '_'];
            let mut v: Vec<char> = Vec::new();
            extend_chars(&mut v, &prefix);
            let digits = signed_decimal_chars(n);
            extend_chars(&mut v, digits.as_slice());
            assert(v@ =~= seq_spool_prefix() + signed_decimal(n as int));
            Some(string_of(v.as_slice()))
        },
    }
}

/// How reading an input line in the interactive shell failed.
pub enum ReadFailure {
    /// The user interrupted the line (Ctrl-C).
    Interrupted,
    /// The input ended (Ctrl-D).
    Eof,
    /// Reading failed with this message.
    Io(String),
    /// Any other failure of the line editor.
    Other,
}

/// What the interactive shell does when reading a line fails: it ends at the end of input and
/// otherwise reads on.
pub open spec fn read_failure_action(f: ReadFailure) -> ReplAction {
    match f {
        ReadFailure::Eof => ReplAction::Exit,
        _ => ReplAction::Continue,
    }
}

/// What the interactive shell does after a statement with outcome `o`, given whether the error
/// message (if any) asks for a new login.
pub open spec fn outcome_action(o: QueryOutcome) -> ReplAction {
    match o {
        QueryOutcome::Exit => ReplAction::Exit,
        QueryOutcome::Done => ReplAction::Continue,
        QueryOutcome::Failed(m) => if contains_seq(m@, seq_unauthenticated()) {
            ReplAction::Reconnect
        } else {
            ReplAction::Stop
        },
    }
}

impl Session {
    /// The interactive shell's decision when reading a line fails: an interrupt drops the
    /// pending statement and reads on; the end of input leaves the shell; an I/O or other
    /// failure is reported and reading goes on.
    pub fn after_read_failure(&mut self, f: &ReadFailure) -> (a: ReplAction)
        ensures
            a == read_failure_action(*f),
            f is Interrupted ==> final(self)@ == (SessionView { query: Seq::empty(), ..old(self)@ }),
            !(f is Interrupted) ==> final(self)@ == old(self)@,
    {
        match f {
            ReadFailure::Interrupted => {
                self.clear_query();
                ReplAction::Continue
            },
            ReadFailure::Eof => ReplAction::Exit,
            ReadFailure::Io(_) => ReplAction::Continue,
            ReadFailure::Other => ReplAction::Continue,
        }
    }
}

/// Law: the interactive shell ends exactly at the end of input or at a statement that asks
/// to exit; interrupts, read errors and failed statements never end it.
pub proof fn repl_ends_only_on_eof_or_exit(f: ReadFailure, o: QueryOutcome)
    ensures
        read_failure_action(f) == ReplAction::Exit <==> f is Eof,
        outcome_action(o) == ReplAction::Exit <==> o is Exit,
{
}

/// The session state and statements after feeding the lines `lines` in turn, by
/// `append_query`.
pub open spec fn feed_lines(st: SessionView, lines: Seq<Seq<char>>) -> (SessionView, Seq<Seq<char>>)
    decreases lines.len(),
{
    if lines.len() == 0 {
        (st, Seq::empty())
    } else {
        let (s1, o1) = feed_lines(st, lines.drop_last());
        let (s2, o2) = append_spec(s1, lines.last());
        (s2, o1 + o2)
    }
}

/// What reading a whole input does: the statements of all lines in order and then, if the
/// trimmed pending statement is not blank, that statement; and the final session state.
pub open spec fn reader_spec(st: SessionView, lines: Seq<Seq<char>>) -> (SessionView, Seq<Seq<char>>) {
    let (s, out) = feed_lines(st, lines);
    if trim(s.query).len() > 0 {
        (SessionView { query: Seq::empty(), ..s }, out.push(trim(s.query)))
    } else {
        (s, out)
    }
}

impl Session {
    /// Splits a whole input, given as its lines, into statements: the statements that the
    /// lines complete, in order, followed by what is left pending at the end (trimmed), if it
    /// is not blank. Afterwards nothing is pending.
    pub fn statements_of_lines(&mut self, lines: &Vec<String>) -> (r: Vec<String>)
        ensures
            final(self)@ == reader_spec(old(self)@, lines@.map_values(|l: String| l@)).0,
            r@.map_values(|s: String| s@) == reader_spec(
                old(self)@,
                lines@.map_values(|l: String| l@),
            ).1,
            trim(final(self)@.query).len() == 0,
    {
        let ghost st0 = self@;
        let ghost lv = lines@.map_values(|l: String| l@);
        let mut out: Vec<String> = Vec::new();
        let mut i: usize = 0;
        assert(lv.take(0) =~= Seq::<Seq<char>>::empty());
        assert(out@.map_values(|s: String| s@) =~= Seq::<Seq<char>>::empty());
        while i < lines.len()
            invariant
                i <= lines@.len(),
                lv == lines@.map_values(|l: String| l@),
                (self@, out@.map_values(|s: String| s@)) == feed_lines(st0, lv.take(i as int)),
            decreases lines.len() - i,
        {
            let ghost before = out@.map_values(|s: String| s@);
            let qs = self.append_query(lines[i].as_str());
            let mut k: usize = 0;
            while k < qs.len()
                invariant
                    k <= qs@.len(),
                    out@.map_values(|s: String| s@) == before + qs@.subrange(0, k as int).map_values(
                        |s: String| s@,
                    ),
                decreases qs.len() - k,
            {
                let ghost mid = out@.map_values(|s: String| s@);
                out.push(qs[k].clone());
                assert(out@.map_values(|s: String| s@) =~= mid.push(qs@[k as int]@));
                assert(qs@.subrange(0, k + 1).map_values(|s: String| s@) =~= qs@.subrange(
                    0,
                    k as int,
                ).map_values(|s: String| s@).push(qs@[k as int]@));
                k = k + 1;
            }
            assert(qs@.subrange(0, qs@.len() as int) =~= qs@);
            assert(lv.take(i + 1).drop_last() =~= lv.take(i as int));
            assert(lv.take(i + 1).last() == lines@[i as int]@);
            i = i + 1;
        }
        assert(lv.take(lines@.len() as int) =~= lv);
        let ghost mid = out@.map_values(|s: String| s@);
        match self.take_pending_query() {
            Some(q) => {
                out.push(q);
                assert(out@.map_values(|s: String| s@) =~= mid.push(trim(feed_lines(st0, lv).0.query)));
            },
            None => {},
        }
        proof {
            crate::text::lemma_trim_idempotent(feed_lines(st0, lv).0.query, CharClass::Whitespace);
        }
        out
    }
}

spec fn dflt_ok(db: Seq<char>, d: Option<Seq<char>>) -> bool {
    db == match d {
        Some(x) => x,
        None => seq_default(),
    }
}

} // verus!

verus! {

// ---------------------------------------------------------------------------------------------
// Laws of the statement splitter and the planner
// ---------------------------------------------------------------------------------------------

/// A text that neither starts nor ends with whitespace is its own trimming.
proof fn lemma_trim_of_bare(s: Seq<char>)
    requires
        s.len() > 0,
        !crate::text::is_unicode_ws(s[0]),
        !crate::text::is_unicode_ws(s.last()),
    ensures
        trim(s) == s,
{
    assert(crate::text::skip_in(s, 0, CharClass::Whitespace) == 0);
    assert(s.subrange(0, s.len() as int) =~= s);
    assert(crate::text::back_in(s, s.len() as int, CharClass::Whitespace) == s.len());
}

/// Every statement in `out` is non-empty, trimmed, and ends with `;`.
pub open spec fn completed_statements(out: Seq<Seq<char>>) -> bool {
    forall|k: int|
        0 <= k < out.len() ==> #[trigger] out[k].len() > 0 && trim(out[k]) == out[k] && out[k].last()
            == ';'
}

proof fn lemma_fold_completes_statements(line: Seq<char>, st: SplitState, toks: Seq<Token>)
    requires
        completed_statements(st.out),
    ensures
        completed_statements(split_fold(line, st, toks).out),
    decreases toks.len(),
{
    if toks.len() > 0 {
        let next = split_step(line, st, toks[0]);
        if toks[0].kind == TokenKind::SemiColon && !(st.in_comment || st.in_block || trim(
            st.query,
        ).len() == 0) {
            let q = trim(st.query).push(';');
            crate::text::lemma_trim_props(st.query, CharClass::Whitespace);
            assert(q[0] == trim(st.query)[0]);
            lemma_trim_of_bare(q);
            assert forall|k: int| 0 <= k < next.out.len() implies #[trigger] next.out[k].len() > 0
                && trim(next.out[k]) == next.out[k] && next.out[k].last() == ';' by {
                if k < st.out.len() {
                    assert(next.out[k] == st.out[k]);
                }
            }
        }
        lemma_fold_completes_statements(line, next, toks.drop_first());
    }
}

/// Law: every statement that appending a line hands out is non-empty and trimmed; in
/// multi-line mode, a statement that the splitter completes (that is, any statement other
/// than a shell line passed through whole) also ends with `;`.
pub proof fn appended_statements_are_trimmed(st: SessionView, raw: Seq<char>)
    ensures
        forall|k: int|
            0 <= k < append_spec(st, raw).1.len() ==> #[trigger] append_spec(st, raw).1[k].len()
                > 0 && trim(append_spec(st, raw).1[k]) == append_spec(st, raw).1[k],
        st.multi_line && !(st.query.len() == 0 && is_shell_line(trim(raw))) ==> completed_statements(
            append_spec(st, raw).1,
        ),
{
    let line = trim(raw);
    crate::text::lemma_trim_idempotent(raw, CharClass::Whitespace);
    if line.len() > 0 && st.multi_line && !(st.query.len() == 0 && is_shell_line(line)) {
        lemma_fold_completes_statements(line, split_start(st), tokens_of(line));
    }
}

/// Law: without multi-line mode, appending a line never changes the session state.
pub proof fn single_line_mode_keeps_state(st: SessionView, raw: Seq<char>)
    requires
        !st.multi_line,
    ensures
        append_spec(st, raw).0 == st,
{
}

/// Law: a blank line changes nothing and completes nothing.
pub proof fn blank_line_is_ignored(st: SessionView, raw: Seq<char>)
    requires
        trim(raw).len() == 0,
    ensures
        append_spec(st, raw).0 == st,
        append_spec(st, raw).1.len() == 0,
{
}

/// The number of `;` tokens in `toks`.
pub open spec fn count_semicolons(toks: Seq<Token>) -> nat
    decreases toks.len(),
{
    if toks.len() == 0 {
        0
    } else {
        (if toks[0].kind == TokenKind::SemiColon {
            1nat
        } else {
            0nat
        }) + count_semicolons(toks.drop_first())
    }
}

proof fn lemma_fold_output_bound(line: Seq<char>, st: SplitState, toks: Seq<Token>)
    ensures
        split_fold(line, st, toks).out.len() <= st.out.len() + count_semicolons(toks),
    decreases toks.len(),
{
    if toks.len() > 0 {
        lemma_fold_output_bound(line, split_step(line, st, toks[0]), toks.drop_first());
    }
}

/// Law: in multi-line mode each statement the splitter completes uses up its own `;` token of
/// the line, so a line completes at most as many statements as it holds `;` tokens (and a
/// line without one completes none).
pub proof fn statements_need_semicolons(st: SessionView, raw: Seq<char>)
    requires
        st.multi_line,
        !(st.query.len() == 0 && is_shell_line(trim(raw))),
    ensures
        append_spec(st, raw).1.len() <= count_semicolons(tokens_of(trim(raw))),
{
    let line = trim(raw);
    if line.len() > 0 {
        lemma_fold_output_bound(line, split_start(st), tokens_of(line));
    }
}

/// Law: outside interactive mode the planner never leaves the shell and never treats a
/// statement as a shell command; an update statement is executed as it stands (trimmed,
/// without trailing `;`).
pub proof fn batch_mode_plans(replace_setting: bool, raw: Seq<char>)
    ensures
        !(plan_spec(false, replace_setting, raw) is Exit),
        !(plan_spec(false, replace_setting, raw) is ControlCommand),
        !(plan_spec(false, replace_setting, raw) is ControlCommandError),
        query_kind(trim(without_trailing_semicolons(raw))) == QueryKind::Update ==> plan_spec(
            false,
            replace_setting,
            raw,
        ) == (PlanView::Exec { query: trim(without_trailing_semicolons(raw)) }),
{
}


// ---------------------------------------------------------------------------------------------
// Laws on classifying, splitting and planning
// ---------------------------------------------------------------------------------------------

/// A character that can continue a word: an ASCII letter or digit, `_` or `$`.
pub open spec fn continues_word(c: char) -> bool {
    ('a' <= c && c <= 'z') || ('A' <= c && c <= 'Z') || ('0' <= c && c <= '9') || c == '_' || c == '$'
}

/// `q` begins with the word `upper`, each letter of it written as in `upper` or as in `lower`,
/// followed by the end of `q` or by a character that cannot continue a word.
pub open spec fn begins_with_word(q: Seq<char>, upper: Seq<char>, lower: Seq<char>) -> bool {
    &&& 0 < upper.len()
    &&& upper.len() == lower.len()
    &&& upper.len() <= q.len()
    &&& forall|k: int| 0 <= k < upper.len() ==> #[trigger] q[k] == upper[k] || q[k] == lower[k]
    &&& (q.len() == upper.len() || !continues_word(q[upper.len() as int]))
}

proof fn lemma_word_token(q: Seq<char>, upper: Seq<char>, lower: Seq<char>)
    requires
        begins_with_word(q, upper, lower),
        forall|k: int| 0 <= k < upper.len() ==> 'A' <= #[trigger] upper[k] <= 'Z',
        forall|k: int| 0 <= k < upper.len() ==> 'a' <= #[trigger] lower[k] <= 'z',
        forall|k: int| 0 <= k < upper.len() ==> (#[trigger] lower[k] as u32) == (upper[k] as u32) + 32,
    ensures
        tokens_of(q).len() > 0,
        tokens_of(q)[0].kind == crate::tokenizer::keyword_kind(q.subrange(0, upper.len() as int)),
        crate::tokenizer::spells(q.subrange(0, upper.len() as int), upper),
{
    let n = upper.len() as int;
    assert(q[0] == upper[0] || q[0] == lower[0]);
    assert forall|k: int| 1 <= k < n implies crate::tokenizer::in_run(
        #[trigger] q[k],
        crate::tokenizer::Run::IdentContinue,
    ) by {
        assert(q[k] == upper[k] || q[k] == lower[k]);
    }
    crate::tokenizer::first_word_is_first_token(q, n);
    let w = q.subrange(0, n);
    assert forall|k: int| 0 <= k < w.len() implies #[trigger] w[k] == upper[k] || (w[k] as u32)
        == (upper[k] as u32) + 32 by {
        assert(q[k] == upper[k] || q[k] == lower[k]);
    }
}

/// Law: a statement that begins with one of the words `ALTER`, `DELETE`, `UPDATE`, `INSERT`,
/// `CREATE`, `DROP` or `OPTIMIZE`, in any letter case, is an update statement.
pub proof fn update_words_make_update_statements(q: Seq<char>)
    ensures
        begins_with_word(q, seq!['A', 'L', 'T', 'E', 'R'], seq!['a', 'l', 't', 'e', 'r'])
            ==> query_kind(q) == QueryKind::Update,
        begins_with_word(q, seq!['D', 'E', 'L', 'E', 'T', 'E'], seq!['d', 'e', 'l', 'e', 't', 'e'])
            ==> query_kind(q) == QueryKind::Update,
        begins_with_word(q, seq!['U', 'P', 'D', 'A', 'T', 'E'], seq!['u', 'p', 'd', 'a', 't', 'e'])
            ==> query_kind(q) == QueryKind::Update,
        begins_with_word(q, seq!['I', 'N', 'S', 'E', 'R', 'T'], seq!['i', 'n', 's', 'e', 'r', 't'])
            ==> query_kind(q) == QueryKind::Update,
        begins_with_word(q, seq!['C', 'R', 'E', 'A', 'T', 'E'], seq!['c', 'r', 'e', 'a', 't', 'e'])
            ==> query_kind(q) == QueryKind::Update,
        begins_with_word(q, seq!['D', 'R', 'O', 'P'], seq!['d', 'r', 'o', 'p'])
            ==> query_kind(q) == QueryKind::Update,
        begins_with_word(q, seq!['O', 'P', 'T', 'I', 'M', 'I', 'Z', 'E'], seq![
            'o', 'p', 't', 'i', 'm', 'i', 'z', 'e',
        ]) ==> query_kind(q) == QueryKind::Update,
{
    let alter = seq!['A', 'L', 'T', 'E', 'R'];
    if begins_with_word(q, alter, seq!['a', 'l', 't', 'e', 'r']) {
        lemma_word_token(q, alter, seq!['a', 'l', 't', 'e', 'r']);
    }
    let delete = seq!['D', 'E', 'L', 'E', 'T', 'E'];
    if begins_with_word(q, delete, seq!['d', 'e', 'l', 'e', 't', 'e']) {
        lemma_word_token(q, delete, seq!['d', 'e', 'l', 'e', 't', 'e']);
    }
    let update = seq!['U', 'P', 'D', 'A', 'T', 'E'];
    if begins_with_word(q, update, seq!['u', 'p', 'd', 'a', 't', 'e']) {
        lemma_word_token(q, update, seq!['u', 'p', 'd', 'a', 't', 'e']);
        lemma_not_spells_at_first(q.subrange(0, 6), kw_delete());
    }
    let insert = seq!['I', 'N', 'S', 'E', 'R', 'T'];
    if begins_with_word(q, insert, seq!['i', 'n', 's', 'e', 'r', 't']) {
        lemma_word_token(q, insert, seq!['i', 'n', 's', 'e', 'r', 't']);
        lemma_not_spells_at_first(q.subrange(0, 6), kw_delete());
        lemma_not_spells_at_first(q.subrange(0, 6), kw_update());
    }
    let create = seq!['C', 'R', 'E', 'A', 'T', 'E'];
    if begins_with_word(q, create, seq!['c', 'r', 'e', 'a', 't', 'e']) {
        lemma_word_token(q, create, seq!['c', 'r', 'e', 'a', 't', 'e']);
        lemma_not_spells_at_first(q.subrange(0, 6), kw_delete());
        lemma_not_spells_at_first(q.subrange(0, 6), kw_update());
        lemma_not_spells_at_first(q.subrange(0, 6), kw_insert());
    }
    let drop = seq!['D', 'R', 'O', 'P'];
    if begins_with_word(q, drop, seq!['d', 'r', 'o', 'p']) {
        lemma_word_token(q, drop, seq!['d', 'r', 'o', 'p']);
    }
    let optimize = seq!['O', 'P', 'T', 'I', 'M', 'I', 'Z', 'E'];
    if begins_with_word(q, optimize, seq!['o', 'p', 't', 'i', 'm', 'i', 'z', 'e']) {
        lemma_word_token(q, optimize, seq!['o', 'p', 't', 'i', 'm', 'i', 'z', 'e']);
    }
}

/// Law: with nothing pending, a line that trims to `exit` or `quit`, to a shell command
/// (starting with `.`) or to a `PUT` statement is handed back whole (trimmed) as the only
/// statement, and the session is left as it was.
pub proof fn shell_lines_pass_through_whole(st: SessionView, raw: Seq<char>)
    requires
        st.query.len() == 0,
    ensures
        trim(raw) == seq!['e', 'x', 'i', 't'] ==> append_spec(st, raw) == (st, seq![trim(raw)]),
        trim(raw) == seq!['q', 'u', 'i', 't'] ==> append_spec(st, raw) == (st, seq![trim(raw)]),
        trim(raw).len() > 0 && trim(raw)[0] == '.' ==> append_spec(st, raw) == (st, seq![trim(raw)]),
        trim(raw).len() >= 3 && (trim(raw)[0] == 'p' || trim(raw)[0] == 'P') && (trim(raw)[1] == 'u'
            || trim(raw)[1] == 'U') && (trim(raw)[2] == 't' || trim(raw)[2] == 'T') ==> append_spec(
            st,
            raw,
        ) == (st, seq![trim(raw)]),
{
    let t = trim(raw);
    if t.len() > 0 && t[0] == '.' {
        assert(t.subrange(0, 1) =~= seq!['.']);
    }
}

/// Law: a `GET` or `PUT` statement with exactly two arguments plans a transfer from its first
/// argument to its second, in the order written, of the statement as given (trimmed, without
/// trailing `;`).
pub proof fn transfers_keep_argument_order(is_repl: bool, replace_setting: bool, raw: Seq<char>)
    ensures
        ({
            let q = trim(without_trailing_semicolons(raw));
            let ws = words(q, CharClass::AsciiWhitespace);
            q.len() > 0 && (q[0] == 'g' || q[0] == 'G') && query_kind(q) == QueryKind::Get
                && ws.len() == 3 ==> (plan_spec(is_repl, replace_setting, raw) matches PlanView::GetFiles {
                query,
                src,
                dst,
                ..
            } && query == q && src == ws[1] && dst == ws[2])
        }),
        ({
            let q = trim(without_trailing_semicolons(raw));
            let ws = words(q, CharClass::AsciiWhitespace);
            q.len() > 0 && (q[0] == 'p' || q[0] == 'P') && query_kind(q) == QueryKind::Put
                && ws.len() == 3 ==> (plan_spec(is_repl, replace_setting, raw) matches PlanView::PutFiles {
                query,
                src,
                dst,
                ..
            } && query == q && src == ws[1] && dst == ws[2])
        }),
{
    let q = trim(without_trailing_semicolons(raw));
    if q.len() > 0 && q[0] != '.' {
        assert(q.subrange(0, 1) != seq!['.']) by {
            assert(q.subrange(0, 1)[0] == q[0]);
        }
    }
}

/// Law: feeding one more line continues from the whole session state that the earlier lines
/// left (the pending statement and whether a comment block is open): its statements are those
/// of `append_query` on that state, after the earlier ones.
pub proof fn lines_continue_from_the_whole_state(st: SessionView, lines: Seq<Seq<char>>, line: Seq<char>)
    ensures
        feed_lines(st, lines.push(line)) == (
            append_spec(feed_lines(st, lines).0, line).0,
            feed_lines(st, lines).1 + append_spec(feed_lines(st, lines).0, line).1,
        ),
{
    assert(lines.push(line).drop_last() =~= lines);
}

/// Law: feeding a single line gives exactly what appending that line to the session gives.
pub proof fn one_line_input_is_one_append(st: SessionView, line: Seq<char>)
    ensures
        feed_lines(st, seq![line]) == append_spec(st, line),
{
    let one = seq![line];
    assert(one.drop_last() =~= Seq::<Seq<char>>::empty());
    assert(feed_lines(st, Seq::<Seq<char>>::empty()) == (st, Seq::<Seq<char>>::empty()));
    assert(one.last() == line);
    assert(append_spec(st, line).1 =~= Seq::<Seq<char>>::empty() + append_spec(st, line).1);
}

/// Law: a statement that begins with the word `EXPLAIN`, `PUT` or `GET`, in any letter case,
/// is of that kind (and the box display of an `EXPLAIN` keeps its line feeds); one that begins
/// with `SELECT` is a query.
pub proof fn leading_words_classify_statements(q: Seq<char>)
    ensures
        begins_with_word(q, seq!['E', 'X', 'P', 'L', 'A', 'I', 'N'], seq!['e', 'x', 'p', 'l', 'a', 'i', 'n'])
            ==> query_kind(q) == QueryKind::Explain && !replaces_newline(q),
        begins_with_word(q, seq!['P', 'U', 'T'], seq!['p', 'u', 't']) ==> query_kind(q)
            == QueryKind::Put,
        begins_with_word(q, seq!['G', 'E', 'T'], seq!['g', 'e', 't']) ==> query_kind(q)
            == QueryKind::Get,
        begins_with_word(q, seq!['S', 'E', 'L', 'E', 'C', 'T'], seq!['s', 'e', 'l', 'e', 'c', 't'])
            ==> query_kind(q) == QueryKind::Query,
{
    let explain = seq!['E', 'X', 'P', 'L', 'A', 'I', 'N'];
    if begins_with_word(q, explain, seq!['e', 'x', 'p', 'l', 'a', 'i', 'n']) {
        lemma_word_token(q, explain, seq!['e', 'x', 'p', 'l', 'a', 'i', 'n']);
    }
    let put = seq!['P', 'U', 'T'];
    if begins_with_word(q, put, seq!['p', 'u', 't']) {
        lemma_word_token(q, put, seq!['p', 'u', 't']);
    }
    let get = seq!['G', 'E', 'T'];
    if begins_with_word(q, get, seq!['g', 'e', 't']) {
        lemma_word_token(q, get, seq!['g', 'e', 't']);
        lemma_not_spells_at_first(q.subrange(0, 3), crate::tokenizer::kw_put());
    }
    let select = seq!['S', 'E', 'L', 'E', 'C', 'T'];
    if begins_with_word(q, select, seq!['s', 'e', 'l', 'e', 'c', 't']) {
        lemma_word_token(q, select, seq!['s', 'e', 'l', 'e', 'c', 't']);
        lemma_not_spells_at_first(q.subrange(0, 6), kw_delete());
        lemma_not_spells_at_first(q.subrange(0, 6), kw_update());
        lemma_not_spells_at_first(q.subrange(0, 6), kw_insert());
        lemma_not_spells_at_first(q.subrange(0, 6), crate::tokenizer::kw_create());
    }
}
} // verus!
