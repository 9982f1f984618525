use vstd::prelude::*;
use vstd::slice::slice_subrange;
use vstd::string::StrSliceExecFns;
use crate::token::{LexError, Token, TokenModel, TokenType};

verus! {

/// Whether `char::is_numeric` holds of a character (Unicode's numeric categories).
pub uninterp spec fn numeric_char(c: char) -> bool;

/// Relies on `char::is_numeric`: its answer depends on the character alone, and
/// every ASCII digit is numeric.
pub assume_specification[ char::is_numeric ](c: char) -> (r: bool)
    ensures
        r == numeric_char(c),
        ('0' <= c && c <= '9') ==> r,
;

/// Relies on `String::from_iter` over `&char`: the string holds the characters in order.
#[verifier::external_body]
fn string_of(cs: &[char]) -> (r: String)
    ensures
        r@ == cs@,
{
    String::from_iter(cs)
}

pub open spec fn is_digit(c: char) -> bool {
    '0' <= c && c <= '9'
}

/// ASCII letters and the underscore: what identifiers are made of.
pub open spec fn is_word_char(c: char) -> bool {
    ('a' <= c && c <= 'z') || ('A' <= c && c <= 'Z') || c == '_'
}

pub open spec fn is_numeral_char(c: char) -> bool {
    numeric_char(c) || c == '.'
}

pub open spec fn numeral_pred() -> spec_fn(char) -> bool {
    |c: char| is_numeral_char(c)
}

pub open spec fn word_pred() -> spec_fn(char) -> bool {
    |c: char| is_word_char(c)
}

pub open spec fn not_quote_pred() -> spec_fn(char) -> bool {
    |c: char| c != '"'
}

pub open spec fn not_newline_pred() -> spec_fn(char) -> bool {
    |c: char| c != '\n'
}

/// The end of the longest run of characters from `i` on that satisfy `p`.
pub open spec fn run_end(s: Seq<char>, i: int, p: spec_fn(char) -> bool) -> int
    decreases s.len() - i,
{
    if 0 <= i < s.len() && p(s[i]) {
        run_end(s, i + 1, p)
    } else {
        i
    }
}

/// The number of newline characters in `s`.
pub open spec fn newline_count(s: Seq<char>) -> int
    decreases s.len(),
{
    if s.len() == 0 {
        0
    } else {
        newline_count(s.drop_last()) + if s.last() == '\n' { 1int } else { 0int }
    }
}

/// A numeral that reads as a 64-bit float: ASCII digits with at most one
/// decimal point.
pub open spec fn is_float_numeral(lex: Seq<char>) -> bool {
    &&& forall|k: int| 0 <= k < lex.len() ==> is_digit(#[trigger] lex[k]) || lex[k] == '.'
    &&& forall|j: int, k: int|
        0 <= j < k < lex.len() ==> !(#[trigger] lex[j] == '.' && #[trigger] lex[k] == '.')
}

/// The kind of a word: a keyword when it is one exactly, else an identifier.
pub open spec fn keyword_kind(lex: Seq<char>) -> TokenType {
    if lex == "and"@ {
        TokenType::And
    } else if lex == "class"@ {
        TokenType::Class
    } else if lex == "else"@ {
        TokenType::Else
    } else if lex == "false"@ {
        TokenType::False
    } else if lex == "fn"@ {
        TokenType::Fn
    } else if lex == "for"@ {
        TokenType::For
    } else if lex == "if"@ {
        TokenType::If
    } else if lex == "null"@ {
        TokenType::Null
    } else if lex == "or"@ {
        TokenType::Or
    } else if lex == "return"@ {
        TokenType::Return
    } else if lex == "super"@ {
        TokenType::Super
    } else if lex == "this"@ {
        TokenType::This
    } else if lex == "true"@ {
        TokenType::True
    } else if lex == "let"@ {
        TokenType::Let
    } else if lex == "while"@ {
        TokenType::While
    } else {
        TokenType::Identifier
    }
}

/// The token that a character makes on its own, if any.
pub open spec fn single_kind(c: char) -> Option<TokenType> {
    if c == '!' {
        Some(TokenType::Bang)
    } else if c == '^' {
        Some(TokenType::Carrot)
    } else if c == ',' {
        Some(TokenType::Comma)
    } else if c == '.' {
        Some(TokenType::Dot)
    } else if c == '=' {
        Some(TokenType::Equal)
    } else if c == '>' {
        Some(TokenType::Greater)
    } else if c == '{' {
        Some(TokenType::LeftBrace)
    } else if c == '[' {
        Some(TokenType::LeftBracket)
    } else if c == '(' {
        Some(TokenType::LeftParen)
    } else if c == '<' {
        Some(TokenType::Less)
    } else if c == '-' {
        Some(TokenType::Minus)
    } else if c == '%' {
        Some(TokenType::Percent)
    } else if c == '+' {
        Some(TokenType::Plus)
    } else if c == ')' {
        Some(TokenType::RightParen)
    } else if c == ']' {
        Some(TokenType::RightBracket)
    } else if c == '}' {
        Some(TokenType::RightBrace)
    } else if c == '*' {
        Some(TokenType::Star)
    } else if c == ';' {
        Some(TokenType::SemiColon)
    } else if c == ':' {
        Some(TokenType::Colon)
    } else if c == '/' {
        Some(TokenType::Slash)
    } else {
        None
    }
}

/// The token that a character makes together with a following `=`, if any.
pub open spec fn with_eq_kind(c: char) -> Option<TokenType> {
    if c == '!' {
        Some(TokenType::BangEq)
    } else if c == '=' {
        Some(TokenType::DoubleEq)
    } else if c == '<' {
        Some(TokenType::LessEq)
    } else if c == '>' {
        Some(TokenType::GreaterEq)
    } else {
        None
    }
}

/// One scanning step at position `i` on line `line`: the tokens it emits (none
/// or one), the position after it and the line after it.
pub open spec fn lex_at(s: Seq<char>, i: int, line: int) -> (Seq<TokenModel>, int, int) {
    let c = s[i];
    let len = s.len() as int;
    if c == '/' && i + 1 < len && s[i + 1] == '/' {
        let e = run_end(s, i + 2, not_newline_pred());
        if e < len {
            (seq![], e + 1, line + 1)
        } else {
            (seq![], len, line)
        }
    } else if with_eq_kind(c) is Some && i + 1 < len && s[i + 1] == '=' {
        (seq![(with_eq_kind(c)->0, s.subrange(i, i + 2), line)], i + 2, line)
    } else if single_kind(c) is Some {
        (seq![(single_kind(c)->0, s.subrange(i, i + 1), line)], i + 1, line)
    } else if is_digit(c) {
        let e = run_end(s, i + 1, numeral_pred());
        let lex = s.subrange(i, e);
        let kind = if is_float_numeral(lex) {
            TokenType::Number
        } else {
            TokenType::Error(LexError::InvalidFloatLiteral)
        };
        (seq![(kind, lex, line)], e, line)
    } else if is_word_char(c) {
        let e = run_end(s, i + 1, word_pred());
        let lex = s.subrange(i, e);
        (seq![(keyword_kind(lex), lex, line)], e, line)
    } else if c == '"' {
        let e = run_end(s, i + 1, not_quote_pred());
        let content = s.subrange(i + 1, e);
        let l = line + newline_count(content);
        if e < len {
            (seq![(TokenType::CroxStr, content, l)], e + 1, l)
        } else {
            (seq![(TokenType::Error(LexError::UnterminatedString), content, l)], len, l)
        }
    } else if c == ' ' {
        (seq![], i + 1, line)
    } else if c == '\n' || c == '\r' || c == '\t' {
        (seq![], i + 1, line + 1)
    } else {
        (seq![(TokenType::Error(LexError::UnrecognizedCharacter), s.subrange(i, i + 1), line)], i + 1, line)
    }
}

/// The tokens of `s` from position `i` on, starting on line `line`, ending
/// with the end-of-input token.
pub open spec fn scan(s: Seq<char>, i: int, line: int) -> Seq<TokenModel>
    decreases s.len() - i,
{
    if 0 <= i < s.len() {
        let step = lex_at(s, i, line);
        proof {
            lemma_lex_at_advances(s, i, line);
        }
        step.0 + scan(s, step.1, step.2)
    } else {
        seq![(TokenType::Eof, Seq::empty(), line)]
    }
}

pub proof fn lemma_run_end_bounds(s: Seq<char>, i: int, p: spec_fn(char) -> bool)
    requires
        0 <= i <= s.len(),
    ensures
        i <= run_end(s, i, p) <= s.len(),
        run_end(s, i, p) == s.len() || !p(s[run_end(s, i, p)]),
        forall|k: int| i <= k < run_end(s, i, p) ==> p(#[trigger] s[k]),
    decreases s.len() - i,
{
    if i < s.len() && p(s[i]) {
        lemma_run_end_bounds(s, i + 1, p);
    }
}

pub proof fn lemma_newline_count_bounds(s: Seq<char>)
    ensures
        0 <= newline_count(s) <= s.len(),
    decreases s.len(),
{
    if s.len() > 0 {
        lemma_newline_count_bounds(s.drop_last());
    }
}

/// A step moves forward, stays inside the text, and adds at most one line for
/// each character it passes.
pub proof fn lemma_lex_at_advances(s: Seq<char>, i: int, line: int)
    requires
        0 <= i < s.len(),
    ensures
        i < lex_at(s, i, line).1 <= s.len(),
        line <= lex_at(s, i, line).2 <= line + (lex_at(s, i, line).1 - i),
{
    if i + 2 <= s.len() {
        lemma_run_end_bounds(s, i + 2, not_newline_pred());
    }
    lemma_run_end_bounds(s, i + 1, numeral_pred());
    lemma_run_end_bounds(s, i + 1, word_pred());
    lemma_run_end_bounds(s, i + 1, not_quote_pred());
    let e = run_end(s, i + 1, not_quote_pred());
    lemma_newline_count_bounds(s.subrange(i + 1, e));
}

/// A run that every character from `i` up to `j` continues, and that `j`
/// ends, ends at `j`.
pub proof fn lemma_run_end_stops(s: Seq<char>, i: int, j: int, p: spec_fn(char) -> bool)
    requires
        0 <= i <= j <= s.len(),
        forall|k: int| i <= k < j ==> p(#[trigger] s[k]),
        j == s.len() || !p(s[j]),
    ensures
        run_end(s, i, p) == j,
    decreases j - i,
{
    if i < j {
        lemma_run_end_stops(s, i + 1, j, p);
    }
}

/// No step emits an end-of-input token.
proof fn lemma_lex_at_no_eof(s: Seq<char>, i: int, line: int)
    requires
        0 <= i < s.len(),
    ensures
        forall|k: int|
            0 <= k < lex_at(s, i, line).0.len() ==> (#[trigger] lex_at(s, i, line).0[k]).0
                != TokenType::Eof,
{
}

/// The tokens of any text end with exactly one end-of-input token, and its
/// lexeme is empty.
pub proof fn law_single_trailing_eof(s: Seq<char>, i: int, line: int)
    requires
        0 <= i,
    ensures
        scan(s, i, line).len() > 0,
        scan(s, i, line).last().0 == TokenType::Eof,
        scan(s, i, line).last().1 == Seq::<char>::empty(),
        forall|k: int|
            0 <= k < scan(s, i, line).len() - 1 ==> (#[trigger] scan(s, i, line)[k]).0
                != TokenType::Eof,
    decreases s.len() - i,
{
    if i < s.len() {
        let step = lex_at(s, i, line);
        lemma_lex_at_advances(s, i, line);
        lemma_lex_at_no_eof(s, i, line);
        law_single_trailing_eof(s, step.1, step.2);
        let rest = scan(s, step.1, step.2);
        assert(scan(s, i, line) == step.0 + rest);
        assert forall|k: int| 0 <= k < scan(s, i, line).len() - 1 implies (#[trigger] scan(
            s,
            i,
            line,
        )[k]).0 != TokenType::Eof by {
            if k < step.0.len() {
                assert(scan(s, i, line)[k] == step.0[k]);
            } else {
                assert(scan(s, i, line)[k] == rest[k - step.0.len()]);
            }
        }
    }
}

/// At a token's start, `!`, `=`, `<` or `>` directly followed by `=` makes
/// one two-character token (`!=`, `==`, `<=`, `>=`).
pub proof fn law_longest_operator(s: Seq<char>, i: int, line: int)
    requires
        0 <= i,
        i + 1 < s.len(),
        s[i] == '!' || s[i] == '=' || s[i] == '<' || s[i] == '>',
        s[i + 1] == '=',
    ensures
        lex_at(s, i, line) == (seq![(with_eq_kind(s[i])->0, s.subrange(i, i + 2), line)], i + 2, line),
        with_eq_kind(s[i]) is Some,
{
}

/// A numeral's token has for lexeme the whole run of numeral characters that
/// starts with its leading digit, and is a `Number` exactly when that run reads
/// as a 64-bit float.
pub proof fn law_numeral(s: Seq<char>, i: int, line: int)
    requires
        0 <= i < s.len(),
        is_digit(s[i]),
    ensures
        ({
            let (toks, next, l) = lex_at(s, i, line);
            &&& toks.len() == 1
            &&& toks[0].1 == s.subrange(i, next)
            &&& toks[0].2 == line && l == line
            &&& forall|k: int| i < k < next ==> is_numeral_char(#[trigger] s[k])
            &&& (next == s.len() || !is_numeral_char(s[next]))
            &&& (toks[0].0 == TokenType::Number) == is_float_numeral(toks[0].1)
            &&& (toks[0].0 != TokenType::Number ==> toks[0].0 == TokenType::Error(
                LexError::InvalidFloatLiteral,
            ))
        }),
{
    lemma_run_end_bounds(s, i + 1, numeral_pred());
}

/// A string literal with a closing quote gives a token whose lexeme is the
/// text between the quotes, and the line moves on by one for each newline in
/// it.
pub proof fn law_string_literal(s: Seq<char>, i: int, j: int, line: int)
    requires
        0 <= i < j < s.len(),
        s[i] == '"',
        s[j] == '"',
        forall|k: int| i < k < j ==> #[trigger] s[k] != '"',
    ensures
        lex_at(s, i, line) == (
            seq![
                (
                    TokenType::CroxStr,
                    s.subrange(i + 1, j),
                    line + newline_count(s.subrange(i + 1, j)),
                ),
            ],
            j + 1,
            line + newline_count(s.subrange(i + 1, j)),
        ),
{
    lemma_run_end_stops(s, i + 1, j, not_quote_pred());
}

/// Each newline adds one to `newline_count`, and nothing else does.
pub proof fn law_newline_count_push(s: Seq<char>, c: char)
    ensures
        newline_count(s.push(c)) == newline_count(s) + if c == '\n' { 1int } else { 0int },
{
    assert(s.push(c).drop_last() =~= s);
}

/// A comment, from `//` up to the next newline or the end, yields no token:
/// scanning resumes after the newline, on the next line.
pub proof fn law_comment(s: Seq<char>, i: int, j: int, line: int)
    requires
        0 <= i,
        i + 2 <= j <= s.len(),
        s[i] == '/',
        s[i + 1] == '/',
        forall|k: int| i + 2 <= k < j ==> #[trigger] s[k] != '\n',
        j == s.len() || s[j] == '\n',
    ensures
        lex_at(s, i, line).0 == Seq::<TokenModel>::empty(),
        j < s.len() ==> scan(s, i, line) == scan(s, j + 1, line + 1),
        j == s.len() ==> scan(s, i, line) == seq![(TokenType::Eof, Seq::<char>::empty(), line)],
{
    lemma_run_end_stops(s, i + 2, j, not_newline_pred());
    assert(lex_at(s, i, line).0 =~= Seq::<TokenModel>::empty());
    assert(scan(s, i, line) == lex_at(s, i, line).0 + scan(s, lex_at(s, i, line).1, lex_at(s, i, line).2));
    if j < s.len() {
        assert(scan(s, i, line) =~= scan(s, j + 1, line + 1));
    } else {
        assert(scan(s, i, line) =~= scan(s, j, line));
    }
}

/// Scans one source text into tokens.
pub struct Scanner {
    s: String,
}

impl View for Scanner {
    type V = Seq<char>;

    closed spec fn view(&self) -> Seq<char> {
        self.s@
    }
}

/// The characters of `s`, in order.
fn chars_of(s: &String) -> (r: Vec<char>)
    ensures
        r@ == s@,
{
    let mut out: Vec<char> = Vec::new();
    for c in it: s.as_str().chars()
        invariant
            out@ == it.seq().take(it.index() as int),
            it.seq() == s@,
    {
        out.push(c);
    }
    out
}

/// The end of the run of numeral characters from `from` on.
fn numeral_end(s: &Vec<char>, from: usize) -> (e: usize)
    requires
        from <= s@.len(),
    ensures
        e == run_end(s@, from as int, numeral_pred()),
{
    let mut j = from;
    while j < s.len() && (s[j].is_numeric() || s[j] == '.')
        invariant
            from <= j <= s@.len(),
            run_end(s@, j as int, numeral_pred()) == run_end(s@, from as int, numeral_pred()),
        decreases s@.len() - j,
    {
        j += 1;
    }
    j
}

fn is_word(c: char) -> (r: bool)
    ensures
        r == is_word_char(c),
{
    ('a' <= c && c <= 'z') || ('A' <= c && c <= 'Z') || c == '_'
}

/// The end of the run of word characters from `from` on.
fn word_end(s: &Vec<char>, from: usize) -> (e: usize)
    requires
        from <= s@.len(),
    ensures
        e == run_end(s@, from as int, word_pred()),
{
    let mut j = from;
    while j < s.len() && is_word(s[j])
        invariant
            from <= j <= s@.len(),
            run_end(s@, j as int, word_pred()) == run_end(s@, from as int, word_pred()),
        decreases s@.len() - j,
    {
        j += 1;
    }
    j
}

/// The position of the first newline from `from` on, or the length.
fn newline_from(s: &Vec<char>, from: usize) -> (e: usize)
    requires
        from <= s@.len(),
    ensures
        e == run_end(s@, from as int, not_newline_pred()),
{
    let mut j = from;
    while j < s.len() && s[j] != '\n'
        invariant
            from <= j <= s@.len(),
            run_end(s@, j as int, not_newline_pred()) == run_end(s@, from as int, not_newline_pred()),
        decreases s@.len() - j,
    {
        j += 1;
    }
    j
}

/// The position of the first quote from `from` on, or the length, with the
/// number of newlines before it.
fn quote_from(s: &Vec<char>, from: usize) -> (r: (usize, usize))
    requires
        from <= s@.len(),
    ensures
        r.0 == run_end(s@, from as int, not_quote_pred()),
        r.1 == newline_count(s@.subrange(from as int, r.0 as int)),
        from <= r.0 <= s@.len(),
        r.1 <= r.0 - from,
{
    let mut j = from;
    let mut newlines: usize = 0;
    while j < s.len() && s[j] != '"'
        invariant
            from <= j <= s@.len(),
            run_end(s@, j as int, not_quote_pred()) == run_end(s@, from as int, not_quote_pred()),
            newlines == newline_count(s@.subrange(from as int, j as int)),
            newlines <= j - from,
        decreases s@.len() - j,
    {
        assert(s@.subrange(from as int, j + 1).drop_last() =~= s@.subrange(from as int, j as int));
        if s[j] == '\n' {
            newlines += 1;
        }
        j += 1;
    }
    (j, newlines)
}

/// Whether the characters of `s` from `start` to `end` spell `word`.
fn spells(s: &Vec<char>, start: usize, end: usize, word: &str) -> (r: bool)
    requires
        start <= end <= s@.len(),
    ensures
        r == (s@.subrange(start as int, end as int) == word@),
{
    let n = word.unicode_len();
    if end - start != n {
        return false;
    }
    let mut k: usize = 0;
    while k < n
        invariant
            k <= n,
            n == word@.len(),
            end - start == n,
            start <= end <= s@.len(),
            forall|m: int| 0 <= m < k ==> s@[start + m] == word@[m],
        decreases n - k,
    {
        if s[start + k] != word.get_char(k) {
            assert(s@.subrange(start as int, end as int)[k as int] != word@[k as int]);
            return false;
        }
        k += 1;
    }
    assert(s@.subrange(start as int, end as int) =~= word@);
    true
}

fn keyword_kind_of(s: &Vec<char>, start: usize, end: usize) -> (r: TokenType)
    requires
        start <= end <= s@.len(),
    ensures
        r == keyword_kind(s@.subrange(start as int, end as int)),
{
    if spells(s, start, end, "and") {
        TokenType::And
    } else if spells(s, start, end, "class") {
        TokenType::Class
    } else if spells(s, start, end, "else") {
        TokenType::Else
    } else if spells(s, start, end, "false") {
        TokenType::False
    } else if spells(s, start, end, "fn") {
        TokenType::Fn
    } else if spells(s, start, end, "for") {
        TokenType::For
    } else if spells(s, start, end, "if") {
        TokenType::If
    } else if spells(s, start, end, "null") {
        TokenType::Null
    } else if spells(s, start, end, "or") {
        TokenType::Or
    } else if spells(s, start, end, "return") {
        TokenType::Return
    } else if spells(s, start, end, "super") {
        TokenType::Super
    } else if spells(s, start, end, "this") {
        TokenType::This
    } else if spells(s, start, end, "true") {
        TokenType::True
    } else if spells(s, start, end, "let") {
        TokenType::Let
    } else if spells(s, start, end, "while") {
        TokenType::While
    } else {
        TokenType::Identifier
    }
}

fn single_kind_of(c: char) -> (r: Option<TokenType>)
    ensures
        r == single_kind(c),
{
    match c {
        '!' => Some(TokenType::Bang),
        '^' => Some(TokenType::Carrot),
        ',' => Some(TokenType::Comma),
        '.' => Some(TokenType::Dot),
        '=' => Some(TokenType::Equal),
        '>' => Some(TokenType::Greater),
        '{' => Some(TokenType::LeftBrace),
        '[' => Some(TokenType::LeftBracket),
        '(' => Some(TokenType::LeftParen),
        '<' => Some(TokenType::Less),
        '-' => Some(TokenType::Minus),
        '%' => Some(TokenType::Percent),
        '+' => Some(TokenType::Plus),
        ')' => Some(TokenType::RightParen),
        ']' => Some(TokenType::RightBracket),
        '}' => Some(TokenType::RightBrace),
        '*' => Some(TokenType::Star),
        ';' => Some(TokenType::SemiColon),
        ':' => Some(TokenType::Colon),
        '/' => Some(TokenType::Slash),
        _ => None,
    }
}

fn with_eq_kind_of(c: char) -> (r: Option<TokenType>)
    ensures
        r == with_eq_kind(c),
{
    match c {
        '!' => Some(TokenType::BangEq),
        '=' => Some(TokenType::DoubleEq),
        '<' => Some(TokenType::LessEq),
        '>' => Some(TokenType::GreaterEq),
        _ => None,
    }
}

/// The models of a list of tokens.
pub open spec fn models(ts: Seq<Token>) -> Seq<TokenModel> {
    ts.map_values(|t: Token| t@)
}

pub open spec fn opt_models(t: Option<Token>) -> Seq<TokenModel> {
    match t {
        Some(t) => seq![t@],
        None => seq![],
    }
}

/// A token of kind `ty` whose lexeme is `s[start..end]`.
fn token_of(s: &Vec<char>, ty: TokenType, start: usize, end: usize, line: usize) -> (r: Token)
    requires
        start <= end <= s@.len(),
    ensures
        r@ == (ty, s@.subrange(start as int, end as int), line as int),
{
    let lexeme = string_of(slice_subrange(s.as_slice(), start, end));
    Token::from_string(ty, lexeme, line)
}

/// One scanning step, as `lex_at` describes it.
fn lex_one(s: &Vec<char>, i: usize, line: usize) -> (r: (Option<Token>, usize, usize))
    requires
        i < s@.len(),
        line <= i,
    ensures
        opt_models(r.0) == lex_at(s@, i as int, line as int).0,
        r.1 == lex_at(s@, i as int, line as int).1,
        r.2 == lex_at(s@, i as int, line as int).2,
{
    proof {
        lemma_lex_at_advances(s@, i as int, line as int);
    }
    let n = s.len();
    let c = s[i];
    if c == '/' && i + 1 < n && s[i + 1] == '/' {
        let e = newline_from(s, i + 2);
        if e < n {
            (None, e + 1, line + 1)
        } else {
            (None, n, line)
        }
    } else if with_eq_kind_of(c).is_some() && i + 1 < n && s[i + 1] == '=' {
        let kind = with_eq_kind_of(c).unwrap();
        (Some(token_of(s, kind, i, i + 2, line)), i + 2, line)
    } else if single_kind_of(c).is_some() {
        let kind = single_kind_of(c).unwrap();
        (Some(token_of(s, kind, i, i + 1, line)), i + 1, line)
    } else if '0' <= c && c <= '9' {
        let e = numeral_end(s, i + 1);
        let kind = if is_float_numeral_at(s, i, e) {
            TokenType::Number
        } else {
            TokenType::Error(LexError::InvalidFloatLiteral)
        };
        (Some(token_of(s, kind, i, e, line)), e, line)
    } else if is_word(c) {
        let e = word_end(s, i + 1);
        let kind = keyword_kind_of(s, i, e);
        (Some(token_of(s, kind, i, e, line)), e, line)
    } else if c == '"' {
        let (e, newlines) = quote_from(s, i + 1);
        let l = line + newlines;
        if e < n {
            (Some(token_of(s, TokenType::CroxStr, i + 1, e, l)), e + 1, l)
        } else {
            (Some(token_of(s, TokenType::Error(LexError::UnterminatedString), i + 1, e, l)), n, l)
        }
    } else if c == ' ' {
        (None, i + 1, line)
    } else if c == '\n' || c == '\r' || c == '\t' {
        (None, i + 1, line + 1)
    } else {
        (Some(token_of(s, TokenType::Error(LexError::UnrecognizedCharacter), i, i + 1, line)), i + 1, line)
    }
}

/// Whether `s[start..end]` reads as a 64-bit float.
fn is_float_numeral_at(s: &Vec<char>, start: usize, end: usize) -> (r: bool)
    requires
        start <= end <= s@.len(),
    ensures
        r == is_float_numeral(s@.subrange(start as int, end as int)),
{
    let ghost lex = s@.subrange(start as int, end as int);
    let mut k: usize = start;
    let mut seen_dot = false;
    while k < end
        invariant
            start <= k <= end <= s@.len(),
            lex == s@.subrange(start as int, end as int),
            forall|m: int| 0 <= m < k - start ==> is_digit(#[trigger] lex[m]) || lex[m] == '.',
            forall|j: int, m: int|
                0 <= j < m < k - start ==> !(#[trigger] lex[j] == '.' && #[trigger] lex[m] == '.'),
            seen_dot == exists|m: int| 0 <= m < k - start && #[trigger] lex[m] == '.',
        decreases end - k,
    {
        let c = s[k];
        assert(lex[k - start] == c);
        if c == '.' {
            if seen_dot {
                let ghost m = choose|m: int| 0 <= m < k - start && #[trigger] lex[m] == '.';
                assert(lex[m] == '.' && lex[k - start] == '.');
                return false;
            }
            seen_dot = true;
        } else if !('0' <= c && c <= '9') {
            assert(!(is_digit(lex[k - start]) || lex[k - start] == '.'));
            return false;
        }
        k += 1;
    }
    true
}

impl Scanner {
    pub fn new(source: String) -> (r: Scanner)
        ensures
            r@ == source@,
    {
        Scanner { s: source }
    }

    /// The tokens of the source text: exactly `scan(self@, 0, 0)`, which ends
    /// with a single end-of-input token.
    pub fn tokenize(&self) -> (tokens: Vec<Token>)
        ensures
            models(tokens@) == scan(self@, 0, 0),
            tokens@.len() > 0,
            tokens@.last()@.0 == TokenType::Eof,
            tokens@.last()@.1 == Seq::<char>::empty(),
            forall|k: int| 0 <= k < tokens@.len() - 1 ==> (#[trigger] tokens@[k])@.0 != TokenType::Eof,
    {
        let s = chars_of(&self.s);
        let n = s.len();
        let mut tokens: Vec<Token> = Vec::with_capacity(n / 3);
        let mut i: usize = 0;
        let mut line: usize = 0;
        while i < n
            invariant
                s@ == self@,
                n == s@.len(),
                i <= n,
                line <= i,
                models(tokens@) + scan(s@, i as int, line as int) == scan(s@, 0, 0),
            decreases n - i,
        {
            let (tok, next, next_line) = lex_one(&s, i, line);
            proof {
                lemma_lex_at_advances(s@, i as int, line as int);
                let step = lex_at(s@, i as int, line as int);
                assert(scan(s@, i as int, line as int) == step.0 + scan(s@, step.1, step.2));
            }
            let ghost before = tokens@;
            match tok {
                Some(t) => {
                    tokens.push(t);
                },
                None => {},
            }
            proof {
                assert(models(tokens@) =~= models(before) + opt_models(tok));
                let rest = scan(s@, next as int, next_line as int);
                assert(models(before) + (opt_models(tok) + rest) =~= (models(before) + opt_models(tok)) + rest);
            }
            i = next;
            line = next_line;
        }
        let ghost before = tokens@;
        tokens.push(Token::from_string(TokenType::Eof, String::new(), line));
        proof {
            assert(models(tokens@) =~= models(before) + seq![(TokenType::Eof, Seq::<char>::empty(), line as int)]);
            law_single_trailing_eof(self@, 0, 0);
            assert(tokens@.last()@ == models(tokens@).last());
            assert forall|k: int| 0 <= k < tokens@.len() - 1 implies (#[trigger] tokens@[k])@.0
                != TokenType::Eof by {
                assert(tokens@[k]@ == models(tokens@)[k]);
            }
        }
        tokens
    }
}

} // verus!
