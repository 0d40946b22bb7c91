//! The SQL tokenizer that the shell uses to split input into statements and
//! to classify statements by their first keyword.
//!
//! Positions are character indices into the tokenized text. Blanks (space,
//! tab, carriage return, form feed) separate tokens and are not tokens
//! themselves; a run of line feeds is a `Newline` token; `--` starts a line
//! comment that runs up to a tab, line feed or form feed; `/*` and `*/` are
//! tokens of their own. A character that starts no token stops the
//! tokenizer with an error; otherwise the last token is `EOI`, an empty token
//! at the end of the text.
use vstd::prelude::*;

verus! {

#[derive(Clone, Copy, PartialEq, Eq, Structural, Debug)]
pub enum TokenKind {
    EOI,
    Newline,
    Comment,
    CommentBlockStart,
    CommentBlockEnd,
    SemiColon,
    Ident,
    QuotedString,
    Number,
    AtString,
    Symbol,
    Explain,
    Put,
    Get,
    Alter,
    Delete,
    Update,
    Insert,
    Create,
    Drop,
    Optimize,
    Show,
}

/// A token: its kind and the half-open range `start..end` of character positions it covers.
#[derive(Clone, Copy, PartialEq, Eq, Structural, Debug)]
pub struct Token {
    pub kind: TokenKind,
    pub start: usize,
    pub end: usize,
}

/// The result of tokenizing a text: the tokens up to the first error, and whether one occurred.
pub struct Tokens {
    pub tokens: Vec<Token>,
    pub failed: bool,
}

/// The character classes whose maximal runs make up tokens.
#[derive(Clone, Copy, PartialEq, Eq, Structural, Debug)]
pub enum Run {
    Blank,
    LineFeed,
    IdentContinue,
    NumberContinue,
    CommentBody,
}

pub open spec fn is_ascii_letter(c: char) -> bool {
    ('a' <= c <= 'z') || ('A' <= c <= 'Z')
}

pub open spec fn is_ascii_digit(c: char) -> bool {
    '0' <= c <= '9'
}

pub open spec fn is_ident_start(c: char) -> bool {
    is_ascii_letter(c) || c == '_'
}

pub open spec fn in_run(c: char, r: Run) -> bool {
    match r {
        Run::Blank => c == ' ' || c == '\t' || c == '\r' || c == '\u{c}',
        Run::LineFeed => c == '\n',
        Run::IdentContinue => is_ident_start(c) || is_ascii_digit(c) || c == '$',
        Run::NumberContinue => is_ascii_letter(c) || is_ascii_digit(c) || c == '_' || c == '.',
        Run::CommentBody => !(c == '\t' || c == '\n' || c == '\u{c}'),
    }
}

/// The single-character operator and punctuation symbols.
pub open spec fn is_symbol(c: char) -> bool {
    ||| c == '!' || c == '#' || c == '$' || c == '%' || c == '&' || c == '(' || c == ')'
    ||| c == '*' || c == '+' || c == ',' || c == '-' || c == '.' || c == '/' || c == ':'
    ||| c == '<' || c == '=' || c == '>' || c == '?' || c == '[' || c == '\\' || c == ']'
    ||| c == '^' || c == '{' || c == '|' || c == '}' || c == '~'
}

/// Characters that end an `@location` token.
pub open spec fn ends_at_string(c: char) -> bool {
    crate::text::is_unicode_ws(c) || c == ',' || c == '`' || c == ';' || c == '\'' || c == '"'
        || c == '(' || c == ')'
}

/// The end of the maximal run of class `r` that starts at `i`.
pub open spec fn run_end(s: Seq<char>, i: int, r: Run) -> int
    decreases s.len() - i,
{
    if 0 <= i < s.len() && in_run(s[i], r) {
        run_end(s, i + 1, r)
    } else {
        i
    }
}

/// The end of a quoted string whose opening quote `q` stands just before `i`, if it is closed.
/// Inside `'` and `"` strings a backslash escapes the next character (other than a line feed)
/// and a doubled quote stands for itself; inside backticks nothing is escaped. Where a doubled
/// quote could also end the string, the longer string wins.
pub open spec fn quote_end(s: Seq<char>, i: int, q: char) -> Option<int>
    decreases s.len() - i,
{
    if i < 0 || i >= s.len() {
        None
    } else if s[i] == q {
        if q != '`' && i + 1 < s.len() && s[i + 1] == q {
            match quote_end(s, i + 2, q) {
                Some(e) => Some(e),
                None => Some(i + 1),
            }
        } else {
            Some(i + 1)
        }
    } else if s[i] == '\\' && q != '`' {
        if i + 1 < s.len() && s[i + 1] != '\n' {
            quote_end(s, i + 2, q)
        } else {
            None
        }
    } else {
        quote_end(s, i + 1, q)
    }
}

/// The end of an `@location` token whose `@` stands just before `i`.
pub open spec fn at_end(s: Seq<char>, i: int) -> int
    decreases s.len() - i,
{
    if i < 0 || i >= s.len() {
        i
    } else if s[i] == '\\' && i + 1 < s.len() && (crate::text::is_unicode_ws(s[i + 1]) || s[i
        + 1] == '\'' || s[i + 1] == '"' || s[i + 1] == '\\') {
        at_end(s, i + 2)
    } else if !ends_at_string(s[i]) {
        at_end(s, i + 1)
    } else {
        i
    }
}

/// `w` spells `kw` (given in capitals) in any mix of ASCII cases.
pub open spec fn spells(w: Seq<char>, kw: Seq<char>) -> bool {
    w.len() == kw.len() && forall|k: int|
        0 <= k < w.len() ==> #[trigger] w[k] == kw[k] || (w[k] as u32) == (kw[k] as u32) + 32
}

pub open spec fn kw_explain() -> Seq<char> {
    seq!['E', 'X', 'P', 'L', 'A', 'I', 'N']
}

pub open spec fn kw_put() -> Seq<char> {
    seq!['P', 'U', 'T']
}

pub open spec fn kw_get() -> Seq<char> {
    seq!['G', 'E', 'T']
}

pub open spec fn kw_alter() -> Seq<char> {
    seq!['A', 'L', 'T', 'E', 'R']
}

pub open spec fn kw_delete() -> Seq<char> {
    seq!['D', 'E', 'L', 'E', 'T', 'E']
}

pub open spec fn kw_update() -> Seq<char> {
    seq!['U', 'P', 'D', 'A', 'T', 'E']
}

pub open spec fn kw_insert() -> Seq<char> {
    seq!['I', 'N', 'S', 'E', 'R', 'T']
}

pub open spec fn kw_create() -> Seq<char> {
    seq!['C', 'R', 'E', 'A', 'T', 'E']
}

pub open spec fn kw_drop() -> Seq<char> {
    seq!['D', 'R', 'O', 'P']
}

pub open spec fn kw_optimize() -> Seq<char> {
    seq!['O', 'P', 'T', 'I', 'M', 'I', 'Z', 'E']
}

pub open spec fn kw_show() -> Seq<char> {
    seq!['S', 'H', 'O', 'W']
}

/// The kind of a word: one of the recognized keywords (case-insensitively), else `Ident`.
pub open spec fn keyword_kind(w: Seq<char>) -> TokenKind {
    if spells(w, kw_explain()) {
        TokenKind::Explain
    } else if spells(w, kw_put()) {
        TokenKind::Put
    } else if spells(w, kw_get()) {
        TokenKind::Get
    } else if spells(w, kw_alter()) {
        TokenKind::Alter
    } else if spells(w, kw_delete()) {
        TokenKind::Delete
    } else if spells(w, kw_update()) {
        TokenKind::Update
    } else if spells(w, kw_insert()) {
        TokenKind::Insert
    } else if spells(w, kw_create()) {
        TokenKind::Create
    } else if spells(w, kw_drop()) {
        TokenKind::Drop
    } else if spells(w, kw_optimize()) {
        TokenKind::Optimize
    } else if spells(w, kw_show()) {
        TokenKind::Show
    } else {
        TokenKind::Ident
    }
}

/// The token that starts at `j` (a position holding a non-blank character): its kind and end,
/// or `None` where no token starts there.
pub open spec fn lex_step(s: Seq<char>, j: int) -> Option<(TokenKind, int)> {
    if j < 0 || j >= s.len() {
        None
    } else {
        let c = s[j];
        let next_is = |d: char| j + 1 < s.len() && s[j + 1] == d;
        if c == '\n' {
            Some((TokenKind::Newline, run_end(s, j, Run::LineFeed)))
        } else if c == '-' && next_is('-') {
            Some((TokenKind::Comment, run_end(s, j + 2, Run::CommentBody)))
        } else if c == '/' && next_is('*') {
            Some((TokenKind::CommentBlockStart, j + 2))
        } else if c == '*' && next_is('/') {
            Some((TokenKind::CommentBlockEnd, j + 2))
        } else if c == ';' {
            Some((TokenKind::SemiColon, j + 1))
        } else if is_ident_start(c) {
            let e = run_end(s, j + 1, Run::IdentContinue);
            Some((keyword_kind(s.subrange(j, e)), e))
        } else if is_ascii_digit(c) {
            Some((TokenKind::Number, run_end(s, j + 1, Run::NumberContinue)))
        } else if c == '\'' || c == '"' || c == '`' {
            match quote_end(s, j + 1, c) {
                Some(e) => Some((TokenKind::QuotedString, e)),
                None => None,
            }
        } else if c == '@' {
            let e = at_end(s, j + 1);
            if e > j + 1 {
                Some((TokenKind::AtString, e))
            } else {
                None
            }
        } else if is_symbol(c) {
            Some((TokenKind::Symbol, j + 1))
        } else {
            None
        }
    }
}

pub proof fn lemma_run_end_bounds(s: Seq<char>, i: int, r: Run)
    requires
        0 <= i <= s.len(),
    ensures
        i <= run_end(s, i, r) <= s.len(),
        run_end(s, i, r) < s.len() ==> !in_run(s[run_end(s, i, r)], r),
        forall|k: int| i <= k < run_end(s, i, r) ==> in_run(#[trigger] s[k], r),
    decreases s.len() - i,
{
    if i < s.len() && in_run(s[i], r) {
        lemma_run_end_bounds(s, i + 1, r);
    }
}

pub proof fn lemma_quote_end_bounds(s: Seq<char>, i: int, q: char)
    requires
        0 <= i,
    ensures
        quote_end(s, i, q) matches Some(e) ==> i < e <= s.len(),
    decreases s.len() - i,
{
    if i < s.len() {
        lemma_quote_end_bounds(s, i + 1, q);
        if i + 2 <= s.len() {
            lemma_quote_end_bounds(s, i + 2, q);
        }
    }
}

pub proof fn lemma_at_end_bounds(s: Seq<char>, i: int)
    requires
        0 <= i <= s.len(),
    ensures
        i <= at_end(s, i) <= s.len(),
    decreases s.len() - i,
{
    if i < s.len() {
        if s[i] == '\\' && i + 1 < s.len() && (crate::text::is_unicode_ws(s[i + 1]) || s[i + 1]
            == '\'' || s[i + 1] == '"' || s[i + 1] == '\\') {
            lemma_at_end_bounds(s, i + 2);
        } else if !ends_at_string(s[i]) {
            lemma_at_end_bounds(s, i + 1);
        }
    }
}

/// A token that the tokenizer finds is non-empty and lies within the text.
pub proof fn lemma_step_advances(s: Seq<char>, j: int)
    requires
        0 <= j < s.len(),
    ensures
        lex_step(s, j) matches Some((k, e)) ==> j < e <= s.len(),
{
    lemma_run_end_bounds(s, j, Run::LineFeed);
    lemma_run_end_bounds(s, j + 1, Run::IdentContinue);
    lemma_run_end_bounds(s, j + 1, Run::NumberContinue);
    if j + 2 <= s.len() {
        lemma_run_end_bounds(s, j + 2, Run::CommentBody);
    }
    lemma_quote_end_bounds(s, j + 1, s[j]);
    lemma_at_end_bounds(s, j + 1);
}

/// The tokens of `s` from position `i` on, and whether tokenizing stopped at an error.
pub open spec fn lex(s: Seq<char>, i: int) -> (Seq<Token>, bool)
    decreases s.len() - i,
{
    if i < 0 || i > s.len() {
        (Seq::empty(), true)
    } else {
        let j = run_end(s, i, Run::Blank);
        if j >= s.len() {
            (seq![Token { kind: TokenKind::EOI, start: s.len() as usize, end: s.len() as usize }], false)
        } else {
            match lex_step(s, j) {
                None => (Seq::empty(), true),
                Some((k, e)) => {
                    proof {
                        lemma_run_end_bounds(s, i, Run::Blank);
                        lemma_step_advances(s, j);
                    }
                    let rest = lex(s, e);
                    (seq![Token { kind: k, start: j as usize, end: e as usize }] + rest.0, rest.1)
                },
            }
        }
    }
}

/// The tokens of a whole text.
pub open spec fn tokens_of(s: Seq<char>) -> Seq<Token> {
    lex(s, 0).0
}

/// Whether tokenizing the whole text stops at an error.
pub open spec fn fails_on(s: Seq<char>) -> bool {
    lex(s, 0).1
}

fn in_run_exec(c: char, r: Run) -> (b: bool)
    ensures
        b == in_run(c, r),
{
    match r {
        Run::Blank => c == ' ' || c == '\t' || c == '\r' || c == '\u{c}',
        Run::LineFeed => c == '\n',
        Run::IdentContinue => ('a' <= c && c <= 'z') || ('A' <= c && c <= 'Z') || c == '_' || (
        '0' <= c && c <= '9') || c == '$',
        Run::NumberContinue => ('a' <= c && c <= 'z') || ('A' <= c && c <= 'Z') || ('0' <= c && c
            <= '9') || c == '_' || c == '.',
        Run::CommentBody => !(c == '\t' || c == '\n' || c == '\u{c}'),
    }
}

fn run_end_exec(s: &[char], i: usize, r: Run) -> (e: usize)
    requires
        i <= s@.len(),
    ensures
        e == run_end(s@, i as int, r),
{
    let mut k = i;
    while k < s.len() && in_run_exec(s[k], r)
        invariant
            i <= k <= s@.len(),
            run_end(s@, k as int, r) == run_end(s@, i as int, r),
        decreases s@.len() - k,
    {
        k = k + 1;
    }
    k
}

fn quote_end_exec(s: &[char], i: usize, q: char) -> (r: Option<usize>)
    requires
        i <= s@.len(),
    ensures
        match quote_end(s@, i as int, q) {
            Some(e) => r == Some(e as usize),
            None => r is None,
        },
    decreases s@.len() - i,
{
    proof {
        lemma_quote_end_bounds(s@, i as int, q);
    }
    if i >= s.len() {
        None
    } else if s[i] == q {
        if q != '`' && i + 1 < s.len() && s[i + 1] == q {
            match quote_end_exec(s, i + 2, q) {
                Some(e) => Some(e),
                None => Some(i + 1),
            }
        } else {
            Some(i + 1)
        }
    } else if s[i] == '\\' && q != '`' {
        if i + 1 < s.len() && s[i + 1] != '\n' {
            quote_end_exec(s, i + 2, q)
        } else {
            None
        }
    } else {
        quote_end_exec(s, i + 1, q)
    }
}

fn at_end_exec(s: &[char], i: usize) -> (e: usize)
    requires
        i <= s@.len(),
    ensures
        e == at_end(s@, i as int),
{
    let mut k = i;
    loop
        invariant
            i <= k <= s@.len(),
            at_end(s@, k as int) == at_end(s@, i as int),
        decreases s@.len() - k,
    {
        if k >= s.len() {
            return k;
        }
        let c = s[k];
        if c == '\\' && k + 1 < s.len() && (crate::text::char_in_class(
            s[k + 1],
            crate::text::CharClass::Whitespace,
        ) || s[k + 1] == '\'' || s[k + 1] == '"' || s[k + 1] == '\\') {
            k = k + 2;
        } else if !(crate::text::char_in_class(c, crate::text::CharClass::Whitespace) || c == ','
            || c == '`' || c == ';' || c == '\'' || c == '"' || c == '(' || c == ')') {
            k = k + 1;
        } else {
            return k;
        }
    }
}

fn spells_exec(s: &[char], lo: usize, hi: usize, kw: &[char]) -> (b: bool)
    requires
        lo <= hi <= s@.len(),
    ensures
        b == spells(s@.subrange(lo as int, hi as int), kw@),
{
    if hi - lo != kw.len() {
        return false;
    }
    let mut k: usize = 0;
    while k < kw.len()
        invariant
            k <= kw@.len(),
            hi - lo == kw@.len(),
            lo <= hi <= s@.len(),
            forall|m: int|
                0 <= m < k ==> s@[lo + m] == kw@[m] || (s@[lo + m] as u32) == (kw@[m] as u32)
                    + 32,
        decreases kw.len() - k,
    {
        let a = s[lo + k];
        let u = kw[k];
        if !(a == u || ((a as u32) >= 32 && (a as u32) - 32 == (u as u32))) {
            assert(s@.subrange(lo as int, hi as int)[k as int] == a);
            return false;
        }
        k = k + 1;
    }
    assert forall|m: int| 0 <= m < kw@.len() implies #[trigger] s@.subrange(lo as int, hi as int)[m]
        == kw@[m] || (s@.subrange(lo as int, hi as int)[m] as u32) == (kw@[m] as u32) + 32 by {
        assert(s@.subrange(lo as int, hi as int)[m] == s@[lo + m]);
    }
    true
}

fn keyword_kind_exec(s: &[char], lo: usize, hi: usize) -> (k: TokenKind)
    requires
        lo <= hi <= s@.len(),
    ensures
        k == keyword_kind(s@.subrange(lo as int, hi as int)),
{
    let explain = ['E', 'X', 'P', 'L', 'A', 'I', 'N'];
    let put = ['P', 'U', 'T'];
    let get = ['G', 'E', 'T'];
    let alter = ['A', 'L', 'T', 'E', 'R'];
    let delete = ['D', 'E', 'L', 'E', 'T', 'E'];
    let update = ['U', 'P', 'D', 'A', 'T', 'E'];
    let insert = ['I', 'N', 'S', 'E', 'R', 'T'];
    let create = ['C', 'R', 'E', 'A', 'T', 'E'];
    let drop = ['D', 'R', 'O', 'P'];
    let optimize = ['O', 'P', 'T', 'I', 'M', 'I', 'Z', 'E'];
    let show = ['S', 'H', 'O', 'W'];
    assert(explain@ == kw_explain());
    assert(put@ == kw_put());
    assert(get@ == kw_get());
    assert(alter@ == kw_alter());
    assert(delete@ == kw_delete());
    assert(update@ == kw_update());
    assert(insert@ == kw_insert());
    assert(create@ == kw_create());
    assert(drop@ == kw_drop());
    assert(optimize@ == kw_optimize());
    assert(show@ == kw_show());
    if spells_exec(s, lo, hi, &explain) {
        TokenKind::Explain
    } else if spells_exec(s, lo, hi, &put) {
        TokenKind::Put
    } else if spells_exec(s, lo, hi, &get) {
        TokenKind::Get
    } else if spells_exec(s, lo, hi, &alter) {
        TokenKind::Alter
    } else if spells_exec(s, lo, hi, &delete) {
        TokenKind::Delete
    } else if spells_exec(s, lo, hi, &update) {
        TokenKind::Update
    } else if spells_exec(s, lo, hi, &insert) {
        TokenKind::Insert
    } else if spells_exec(s, lo, hi, &create) {
        TokenKind::Create
    } else if spells_exec(s, lo, hi, &drop) {
        TokenKind::Drop
    } else if spells_exec(s, lo, hi, &optimize) {
        TokenKind::Optimize
    } else if spells_exec(s, lo, hi, &show) {
        TokenKind::Show
    } else {
        TokenKind::Ident
    }
}

fn is_symbol_exec(c: char) -> (b: bool)
    ensures
        b == is_symbol(c),
{
    c == '!' || c == '#' || c == '$' || c == '%' || c == '&' || c == '(' || c == ')' || c == '*'
        || c == '+' || c == ',' || c == '-' || c == '.' || c == '/' || c == ':' || c == '<' || c
        == '=' || c == '>' || c == '?' || c == '[' || c == '\\' || c == ']' || c == '^' || c
        == '{' || c == '|' || c == '}' || c == '~'
}

fn lex_step_exec(s: &[char], j: usize) -> (r: Option<(TokenKind, usize)>)
    requires
        j < s@.len(),
    ensures
        match lex_step(s@, j as int) {
            Some((k, e)) => r == Some((k, e as usize)),
            None => r is None,
        },
{
    proof {
        lemma_step_advances(s@, j as int);
    }
    let c = s[j];
    let next = if j + 1 < s.len() {
        Some(s[j + 1])
    } else {
        None
    };
    if c == '\n' {
        Some((TokenKind::Newline, run_end_exec(s, j, Run::LineFeed)))
    } else if c == '-' && next == Some('-') {
        Some((TokenKind::Comment, run_end_exec(s, j + 2, Run::CommentBody)))
    } else if c == '/' && next == Some('*') {
        Some((TokenKind::CommentBlockStart, j + 2))
    } else if c == '*' && next == Some('/') {
        Some((TokenKind::CommentBlockEnd, j + 2))
    } else if c == ';' {
        Some((TokenKind::SemiColon, j + 1))
    } else if ('a' <= c && c <= 'z') || ('A' <= c && c <= 'Z') || c == '_' {
        let e = run_end_exec(s, j + 1, Run::IdentContinue);
        Some((keyword_kind_exec(s, j, e), e))
    } else if '0' <= c && c <= '9' {
        Some((TokenKind::Number, run_end_exec(s, j + 1, Run::NumberContinue)))
    } else if c == '\'' || c == '"' || c == '`' {
        match quote_end_exec(s, j + 1, c) {
            Some(e) => Some((TokenKind::QuotedString, e)),
            None => None,
        }
    } else if c == '@' {
        let e = at_end_exec(s, j + 1);
        if e > j + 1 {
            Some((TokenKind::AtString, e))
        } else {
            None
        }
    } else if is_symbol_exec(c) {
        Some((TokenKind::Symbol, j + 1))
    } else {
        None
    }
}

/// Tokenizes `s`: the tokens up to the first error, and whether an error stopped the tokenizer.
pub fn tokenize(s: &[char]) -> (r: Tokens)
    ensures
        r.tokens@ == tokens_of(s@),
        r.failed == fails_on(s@),
{
    let mut out: Vec<Token> = Vec::new();
    let mut pos: usize = 0;
    loop
        invariant
            pos <= s@.len(),
            out@ + lex(s@, pos as int).0 == tokens_of(s@),
            lex(s@, pos as int).1 == fails_on(s@),
        decreases s@.len() - pos,
    {
        let j = run_end_exec(s, pos, Run::Blank);
        proof {
            lemma_run_end_bounds(s@, pos as int, Run::Blank);
        }
        if j >= s.len() {
            let ghost before = out@;
            out.push(Token { kind: TokenKind::EOI, start: s.len(), end: s.len() });
            assert(out@ =~= before + lex(s@, pos as int).0);
            return Tokens { tokens: out, failed: false };
        }
        match lex_step_exec(s, j) {
            None => {
                assert(out@ + lex(s@, pos as int).0 =~= out@);
                return Tokens { tokens: out, failed: true };
            },
            Some((k, e)) => {
                proof {
                    lemma_step_advances(s@, j as int);
                }
                let ghost before = out@;
                out.push(Token { kind: k, start: j, end: e });
                assert(before + lex(s@, pos as int).0 =~= out@ + lex(s@, e as int).0);
                pos = e;
            },
        }
    }
}

/// Every token lies within the text, ends no earlier than it starts, and starts no earlier
/// than the previous one ends.
pub open spec fn well_placed(toks: Seq<Token>, len: int) -> bool {
    &&& forall|k: int| 0 <= k < toks.len() ==> #[trigger] toks[k].start <= toks[k].end <= len
    &&& forall|k: int| 0 <= k < toks.len() - 1 ==> #[trigger] toks[k].end <= toks[k + 1].start
}

pub proof fn lemma_lex_well_placed(s: Seq<char>, i: int)
    requires
        0 <= i <= s.len(),
        s.len() <= usize::MAX,
    ensures
        well_placed(lex(s, i).0, s.len() as int),
        forall|k: int| 0 <= k < lex(s, i).0.len() ==> i <= #[trigger] lex(s, i).0[k].start,
    decreases s.len() - i,
{
    let j = run_end(s, i, Run::Blank);
    lemma_run_end_bounds(s, i, Run::Blank);
    if j < s.len() {
        lemma_step_advances(s, j);
        if let Some((k, e)) = lex_step(s, j) {
            lemma_lex_well_placed(s, e);
            let rest = lex(s, e).0;
            let all = lex(s, i).0;
            assert(all == seq![Token { kind: k, start: j as usize, end: e as usize }] + rest);
            assert forall|m: int| 0 <= m < all.len() - 1 implies #[trigger] all[m].end <= all[m
                + 1].start by {
                if m > 0 {
                    assert(all[m] == rest[m - 1]);
                    assert(all[m + 1] == rest[m]);
                } else {
                    assert(all[1] == rest[0]);
                }
            }
            assert forall|m: int| 0 <= m < all.len() implies #[trigger] all[m].start <= all[m].end
                <= s.len() && i <= all[m].start by {
                if m > 0 {
                    assert(all[m] == rest[m - 1]);
                    assert(e <= rest[m - 1].start);
                } else {
                    assert(all[0].start as int == j);
                    assert(all[0].end as int == e);
                }
            }
            assert(well_placed(all, s.len() as int));
        }
    } else {
        let all = lex(s, i).0;
        assert(all[0].start as int == s.len());
        assert(well_placed(all, s.len() as int));
    }
}

/// Tokenizing a whole text yields well-placed tokens (the law that every token span is a
/// valid, ordered range of the text).
pub proof fn tokens_are_well_placed(s: Seq<char>)
    requires
        s.len() <= usize::MAX,
    ensures
        well_placed(tokens_of(s), s.len() as int),
{
    lemma_lex_well_placed(s, 0);
}

/// Tokenizing a whole text without error ends with the `EOI` token at the end of the text.
pub proof fn successful_tokenizing_ends_with_eoi(s: Seq<char>)
    requires
        s.len() <= usize::MAX,
        !fails_on(s),
    ensures
        tokens_of(s).len() > 0,
        tokens_of(s).last() == (Token { kind: TokenKind::EOI, start: s.len() as usize, end: s.len() as usize }),
{
    lemma_lex_ends_with_eoi(s, 0);
}

proof fn lemma_lex_ends_with_eoi(s: Seq<char>, i: int)
    requires
        0 <= i <= s.len(),
        !lex(s, i).1,
    ensures
        lex(s, i).0.len() > 0,
        lex(s, i).0.last() == (Token { kind: TokenKind::EOI, start: s.len() as usize, end: s.len() as usize }),
    decreases s.len() - i,
{
    let j = run_end(s, i, Run::Blank);
    lemma_run_end_bounds(s, i, Run::Blank);
    if j < s.len() {
        lemma_step_advances(s, j);
        if let Some((k, e)) = lex_step(s, j) {
            lemma_lex_ends_with_eoi(s, e);
        }
    }
}


/// Plain SQL text: ASCII letters, digits, `_`, blanks and line feeds, `;`, and the ASCII
/// operator and punctuation symbols `! # $ % & ( ) * + , - . / : < = > ? [ \ ] ^ { | } ~`.
pub open spec fn is_plain_sql_char(c: char) -> bool {
    ||| ('a' <= c && c <= 'z') || ('A' <= c && c <= 'Z') || ('0' <= c && c <= '9') || c == '_'
    ||| c == ' ' || c == '\t' || c == '\r' || c == '\u{c}' || c == '\n' || c == ';'
    ||| c == '!' || c == '#' || c == '$' || c == '%' || c == '&' || c == '(' || c == ')'
    ||| c == '*' || c == '+' || c == ',' || c == '-' || c == '.' || c == '/' || c == ':'
    ||| c == '<' || c == '=' || c == '>' || c == '?' || c == '[' || c == '\\' || c == ']'
    ||| c == '^' || c == '{' || c == '|' || c == '}' || c == '~'
}

proof fn lemma_plain_never_fails(s: Seq<char>, i: int)
    requires
        0 <= i <= s.len(),
        forall|k: int| 0 <= k < s.len() ==> is_plain_sql_char(#[trigger] s[k]),
    ensures
        !lex(s, i).1,
    decreases s.len() - i,
{
    let j = run_end(s, i, Run::Blank);
    lemma_run_end_bounds(s, i, Run::Blank);
    if j < s.len() {
        let c = s[j];
        assert(is_plain_sql_char(c));
        assert(lex_step(s, j) is Some);
        lemma_step_advances(s, j);
        if let Some((k, e)) = lex_step(s, j) {
            lemma_plain_never_fails(s, e);
        }
    }
}

/// Law: tokenizing plain SQL text (see `is_plain_sql_char`) never fails.
pub proof fn plain_sql_never_fails(s: Seq<char>)
    requires
        forall|k: int| 0 <= k < s.len() ==> is_plain_sql_char(#[trigger] s[k]),
    ensures
        !fails_on(s),
{
    lemma_plain_never_fails(s, 0);
}

proof fn lemma_plain_semicolons(s: Seq<char>, i: int, p: int)
    requires
        0 <= i <= p < s.len(),
        s.len() <= usize::MAX,
        s[p] == ';',
        forall|k: int| 0 <= k < s.len() ==> is_plain_sql_char(#[trigger] s[k]) && s[k] != '-',
    ensures
        exists|t: int| 0 <= t < lex(s, i).0.len() && #[trigger] lex(s, i).0[t] == (Token {
            kind: TokenKind::SemiColon,
            start: p as usize,
            end: (p + 1) as usize,
        }),
    decreases s.len() - i,
{
    let j = run_end(s, i, Run::Blank);
    lemma_run_end_bounds(s, i, Run::Blank);
    if p < j {
        assert(in_run(s[p], Run::Blank));
    }
    assert(j <= p);
    let c = s[j];
    assert(is_plain_sql_char(c));
    lemma_step_advances(s, j);
    assert(lex_step(s, j) is Some);
    let (k, e) = lex_step(s, j)->0;
    let rest = lex(s, e);
    assert(lex(s, i).0 == seq![Token { kind: k, start: j as usize, end: e as usize }] + rest.0);
    if j == p {
        assert(lex(s, i).0[0] == (Token { kind: TokenKind::SemiColon, start: p as usize, end: (p + 1) as usize }));
    } else {
        lemma_run_end_bounds(s, j, Run::LineFeed);
        lemma_run_end_bounds(s, j + 1, Run::IdentContinue);
        lemma_run_end_bounds(s, j + 1, Run::NumberContinue);
        if p < e {
            if c == '\n' {
                assert(in_run(s[p], Run::LineFeed));
            } else if is_ident_start(c) {
                assert(in_run(s[p], Run::IdentContinue));
            } else if is_ascii_digit(c) {
                assert(in_run(s[p], Run::NumberContinue));
            }
        }
        assert(e <= p);
        lemma_plain_semicolons(s, e, p);
        let t = choose|t: int| 0 <= t < rest.0.len() && #[trigger] rest.0[t] == (Token {
            kind: TokenKind::SemiColon,
            start: p as usize,
            end: (p + 1) as usize,
        });
        assert(lex(s, i).0[t + 1] == rest.0[t]);
    }
}

/// Law: in plain SQL text without `-` (so without line comments), every `;` is a `SemiColon`
/// token of its own.
pub proof fn plain_sql_semicolons_are_tokens(s: Seq<char>, p: int)
    requires
        s.len() <= usize::MAX,
        0 <= p < s.len(),
        s[p] == ';',
        forall|k: int| 0 <= k < s.len() ==> is_plain_sql_char(#[trigger] s[k]) && s[k] != '-',
    ensures
        exists|t: int| 0 <= t < tokens_of(s).len() && #[trigger] tokens_of(s)[t] == (Token {
            kind: TokenKind::SemiColon,
            start: p as usize,
            end: (p + 1) as usize,
        }),
{
    lemma_plain_semicolons(s, 0, p);
    let t = choose|t: int| 0 <= t < lex(s, 0).0.len() && #[trigger] lex(s, 0).0[t] == (Token {
        kind: TokenKind::SemiColon,
        start: p as usize,
        end: (p + 1) as usize,
    });
    assert(tokens_of(s)[t] == lex(s, 0).0[t]);
}


/// Law: a text that begins with a word (a letter or `_`, then letters, digits, `_` and `$`, up
/// to the end or to a character that cannot continue it) has that word, by its keyword kind,
/// as its first token.
pub proof fn first_word_is_first_token(q: Seq<char>, n: int)
    requires
        0 < n <= q.len(),
        is_ident_start(q[0]),
        forall|k: int| 1 <= k < n ==> in_run(#[trigger] q[k], Run::IdentContinue),
        n == q.len() || !in_run(q[n], Run::IdentContinue),
    ensures
        tokens_of(q).len() > 0,
        tokens_of(q)[0] == (Token { kind: keyword_kind(q.subrange(0, n)), start: 0, end: n as usize }),
{
    assert(run_end(q, 0, Run::Blank) == 0);
    lemma_run_end_bounds(q, 1, Run::IdentContinue);
    let e = run_end(q, 1, Run::IdentContinue);
    if e < n {
        assert(in_run(q[e], Run::IdentContinue));
    }
    if e > n {
        assert(in_run(q[n], Run::IdentContinue));
    }
    assert(e == n);
    assert(lex_step(q, 0) == Some((keyword_kind(q.subrange(0, n)), n)));
    lemma_step_advances(q, 0);
}

/// `w` does not spell `kw` when their first letters differ in every case.
pub proof fn lemma_not_spells_at_first(w: Seq<char>, kw: Seq<char>)
    requires
        w.len() > 0,
        w[0] != kw[0],
        (w[0] as u32) != (kw[0] as u32) + 32,
    ensures
        !spells(w, kw),
{
}

} // verus!
