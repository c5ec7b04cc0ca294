use vstd::prelude::*;
use vstd::string::StrSliceExecFns;
use vstd::string::StringExecFns;

use crate::text::chars_of;
use crate::text::is_digit;
use crate::text::is_ident_char;
use crate::text::is_whitespace;
use crate::text::spec_dec_digits;
use crate::text::spec_digits_val;
use crate::text::spec_is_digit;
use crate::text::spec_is_ident_char;
use crate::text::spec_is_whitespace;
use crate::text::string_from_chars;
use crate::text::str_eq;
use crate::token::FilePos;
use crate::token::FilePosV;
use crate::token::Identifier;
use crate::token::Keyword;
use crate::token::Literal;
use crate::token::LiteralV;
use crate::token::Operator;
use crate::token::Parenthetical;
use crate::token::Token;
use crate::token::TokenV;
use crate::token::Trace;
use crate::token::TracedToken;
use crate::token::TracedTokenV;
use crate::token::TraceV;
use crate::token::traced_tokens_view;

verus! {

/// Mathematical model of a lexer error.
pub enum LexerErrorV {
    UnexpectedChar(char),
    UnterminatedLiteral(Seq<char>),
    InvalidLiteral(Seq<char>, Seq<char>),
    EmptyLiteral,
    LongCharacterLiteral(Seq<char>),
}

/// An error of the lexer: an unrecognized character, a quoted literal that
/// never closes, one whose escapes do not decode (with the cause), or a
/// character literal holding no character or more than one.
#[derive(Debug, PartialEq)]
pub enum LexerError {
    UnexpectedChar(char),
    UnterminatedLiteral(String),
    InvalidLiteral(String, String),
    EmptyLiteral,
    LongCharacterLiteral(String),
}

impl View for LexerError {
    type V = LexerErrorV;

    open spec fn view(&self) -> LexerErrorV {
        match self {
            LexerError::UnexpectedChar(c) => LexerErrorV::UnexpectedChar(*c),
            LexerError::UnterminatedLiteral(s) => LexerErrorV::UnterminatedLiteral(s@),
            LexerError::InvalidLiteral(s, cause) => LexerErrorV::InvalidLiteral(s@, cause@),
            LexerError::EmptyLiteral => LexerErrorV::EmptyLiteral,
            LexerError::LongCharacterLiteral(s) => LexerErrorV::LongCharacterLiteral(s@),
        }
    }
}

/// What decoding the raw text of a quoted literal yields: the text with
/// its escapes resolved where the quoted raw text is a valid JSON string,
/// or the error's rendering where it is not. The result is a function of
/// the characters of `raw` alone.
pub uninterp spec fn spec_decode_escapes(raw: Seq<char>) -> Result<Seq<char>, Seq<char>>;

/// Relies on `serde_json::from_str::<String>`: decodes the raw inside of a
/// quoted literal by reading it as a JSON string, which resolves the
/// standard escapes; its error is rendered by `Display` into the cause.
#[verifier::external_body]
fn decode_escapes(raw: &String) -> (r: Result<String, String>)
    ensures
        match (&r, spec_decode_escapes(raw@)) {
            (Ok(s), Ok(sv)) => s@ == sv,
            (Err(e), Err(ev)) => e@ == ev,
            _ => false,
        },
{
    let quoted = format!("\"{}\"", raw);
    match serde_json::from_str::<String>(&quoted) {
        Ok(s) => Ok(s),
        Err(e) => Err(e.to_string()),
    }
}

/// The raw text of a quoted literal: scans from `i` up to the first
/// unescaped occurrence of the quote `q`, keeping a backslash and the
/// character after it verbatim. Yields the text collected onto `acc` and
/// the position after the closing quote, or `None` where the input ends
/// first.
pub open spec fn spec_scan_quoted(s: Seq<char>, i: int, q: char, acc: Seq<char>) -> (Seq<
    char,
>, Option<int>)
    decreases s.len() - i,
{
    if i < 0 || i >= s.len() {
        (acc, None)
    } else if s[i] == q {
        (acc, Some(i + 1))
    } else if s[i] == '\\' {
        if i + 1 < s.len() {
            spec_scan_quoted(s, i + 2, q, acc.push('\\').push(s[i + 1]))
        } else {
            (acc.push('\\'), None)
        }
    } else {
        spec_scan_quoted(s, i + 1, q, acc.push(s[i]))
    }
}

/// The digits of a numeric literal: scans from `i` over digits, underscore
/// separators and at most one decimal point in all. Yields the text
/// collected onto `acc`, whether a decimal point was seen, and the
/// position of the first character that does not belong.
pub open spec fn spec_scan_number(s: Seq<char>, i: int, has_dec: bool, acc: Seq<char>) -> (Seq<
    char,
>, bool, int)
    decreases s.len() - i,
{
    if i < 0 || i >= s.len() {
        (acc, has_dec, i)
    } else if s[i] == '_' || (s[i] == '.' && !has_dec) || spec_is_digit(s[i]) {
        spec_scan_number(s, i + 1, has_dec || s[i] == '.', acc.push(s[i]))
    } else {
        (acc, has_dec, i)
    }
}

/// A maximal run of identifier characters from `i`, collected onto `acc`,
/// with the position of the first character past the run.
pub open spec fn spec_scan_ident(s: Seq<char>, i: int, acc: Seq<char>) -> (Seq<char>, int)
    decreases s.len() - i,
{
    if i < 0 || i >= s.len() {
        (acc, i)
    } else if spec_is_ident_char(s[i]) {
        spec_scan_ident(s, i + 1, acc.push(s[i]))
    } else {
        (acc, i)
    }
}

/// The text with every underscore separator removed.
pub open spec fn spec_strip_underscores(s: Seq<char>) -> Seq<char>
    decreases s.len(),
{
    if s.len() == 0 {
        Seq::empty()
    } else if s.last() == '_' {
        spec_strip_underscores(s.drop_last())
    } else {
        spec_strip_underscores(s.drop_last()).push(s.last())
    }
}

/// The operator written as the two given characters, if any.
pub open spec fn spec_double_op(a: char, b: char) -> Option<Operator> {
    if a == '=' && b == '=' {
        Some(Operator::Equals)
    } else if a == '!' && b == '=' {
        Some(Operator::NotEquals)
    } else if a == '>' && b == '=' {
        Some(Operator::GreaterOrEquals)
    } else if a == '<' && b == '=' {
        Some(Operator::LessOrEquals)
    } else if a == '-' && b == '>' {
        Some(Operator::ThinArrow)
    } else if a == '=' && b == '>' {
        Some(Operator::Arrow)
    } else if a == '<' && b == '<' {
        Some(Operator::ShiftLeft)
    } else if a == '>' && b == '>' {
        Some(Operator::ShiftRight)
    } else {
        None
    }
}

/// The operator written as the single given character, if any.
pub open spec fn spec_simple_op(c: char) -> Option<Operator> {
    match c {
        '+' => Some(Operator::Add),
        '-' => Some(Operator::Minus),
        '*' => Some(Operator::Star),
        '/' => Some(Operator::Divide),
        '%' => Some(Operator::Mod),
        ',' => Some(Operator::Comma),
        '.' => Some(Operator::Dot),
        ':' => Some(Operator::Colon),
        ';' => Some(Operator::SemiColon),
        '>' => Some(Operator::Greater),
        '<' => Some(Operator::Less),
        '=' => Some(Operator::Assignment),
        '&' => Some(Operator::Reference),
        _ => None,
    }
}

/// The bracket token written as the given character, if any.
pub open spec fn spec_paren(c: char) -> Option<Parenthetical> {
    match c {
        '(' => Some(Parenthetical::NormalOpen),
        ')' => Some(Parenthetical::NormalClose),
        '[' => Some(Parenthetical::BracketOpen),
        ']' => Some(Parenthetical::BracketClose),
        '{' => Some(Parenthetical::CurlyOpen),
        '}' => Some(Parenthetical::CurlyClose),
        _ => None,
    }
}

/// The token an identifier-shaped word stands for: the word operators and
/// boolean literals are special-cased, then the keyword table is looked
/// up, and any other word is an identifier.
pub open spec fn spec_word_token(text: Seq<char>) -> TokenV {
    if text == "and"@ {
        TokenV::Operator(Operator::And)
    } else if text == "or"@ {
        TokenV::Operator(Operator::Or)
    } else if text == "not"@ {
        TokenV::Operator(Operator::Not)
    } else if text == "xor"@ {
        TokenV::Operator(Operator::Xor)
    } else if text == "mod"@ {
        TokenV::Operator(Operator::Mod)
    } else if text == "no_cap"@ || text == "true"@ {
        TokenV::Literal(LiteralV::Bool(true))
    } else if text == "cap"@ || text == "false"@ {
        TokenV::Literal(LiteralV::Bool(false))
    } else if text == "function"@ {
        TokenV::Keyword(Keyword::Function)
    } else if text == "return"@ {
        TokenV::Keyword(Keyword::Return)
    } else if text == "break"@ {
        TokenV::Keyword(Keyword::Break)
    } else if text == "while"@ {
        TokenV::Keyword(Keyword::While)
    } else if text == "for"@ {
        TokenV::Keyword(Keyword::For)
    } else if text == "let"@ {
        TokenV::Keyword(Keyword::Let)
    } else if text == "var"@ {
        TokenV::Keyword(Keyword::Var)
    } else if text == "in"@ {
        TokenV::Keyword(Keyword::In)
    } else if text == "const"@ {
        TokenV::Keyword(Keyword::Const)
    } else if text == "as"@ {
        TokenV::Keyword(Keyword::As)
    } else {
        TokenV::Identifier(text)
    }
}

/// The number of line breaks in the text.
pub open spec fn spec_row_of(s: Seq<char>) -> int
    decreases s.len(),
{
    if s.len() == 0 {
        0
    } else if s.last() == '\n' {
        spec_row_of(s.drop_last()) + 1
    } else {
        spec_row_of(s.drop_last())
    }
}

/// The one-based column after the text: the count of characters since the
/// last line break, plus one.
pub open spec fn spec_col_of(s: Seq<char>) -> int
    decreases s.len(),
{
    if s.len() == 0 {
        1
    } else if s.last() == '\n' {
        1
    } else {
        spec_col_of(s.drop_last()) + 1
    }
}

/// The source position after consuming the first `pos` characters.
pub open spec fn spec_file_pos(s: Seq<char>, pos: int) -> FilePosV {
    FilePosV { row: spec_row_of(s.take(pos)), column: spec_col_of(s.take(pos)) }
}

/// One step of the lexer: the token read at `pos` (none for whitespace)
/// and the position after it, or the error that stops the scan. The
/// recognizers are tried in a fixed order; the first to match wins.
pub open spec fn spec_step(s: Seq<char>, pos: int) -> Result<(Option<TokenV>, int), LexerErrorV> {
    let c = s[pos];
    if c == '"' {
        let (raw, after) = spec_scan_quoted(s, pos + 1, '"', Seq::empty());
        match after {
            None => Err(LexerErrorV::UnterminatedLiteral(raw)),
            Some(after) => match spec_decode_escapes(raw) {
                Ok(text) => Ok((Some(TokenV::Literal(LiteralV::Str(text))), after)),
                Err(cause) => Err(LexerErrorV::InvalidLiteral(raw, cause)),
            },
        }
    } else if c == '\'' {
        let (raw, after) = spec_scan_quoted(s, pos + 1, '\'', Seq::empty());
        match after {
            None => Err(LexerErrorV::UnterminatedLiteral(raw)),
            Some(after) => match spec_decode_escapes(raw) {
                Ok(text) => if text.len() > 1 {
                    Err(LexerErrorV::LongCharacterLiteral(text))
                } else if text.len() == 0 {
                    Err(LexerErrorV::EmptyLiteral)
                } else {
                    Ok((Some(TokenV::Literal(LiteralV::Character(text[0]))), after))
                },
                Err(cause) => Err(LexerErrorV::InvalidLiteral(raw, cause)),
            },
        }
    } else if spec_is_whitespace(c) {
        Ok((None, pos + 1))
    } else if pos + 1 < s.len() && spec_double_op(c, s[pos + 1]) is Some {
        Ok((Some(TokenV::Operator(spec_double_op(c, s[pos + 1]).unwrap())), pos + 2))
    } else if spec_paren(c) is Some {
        Ok((Some(TokenV::Parenthetical(spec_paren(c).unwrap())), pos + 1))
    } else if spec_simple_op(c) is Some {
        Ok((Some(TokenV::Operator(spec_simple_op(c).unwrap())), pos + 1))
    } else if spec_is_digit(c) {
        let (text, has_dec, after) = spec_scan_number(s, pos + 1, false, seq![c]);
        let stripped = spec_strip_underscores(text);
        if has_dec {
            Ok((Some(TokenV::Literal(LiteralV::Float(stripped))), after))
        } else {
            Ok((Some(TokenV::Literal(LiteralV::Integer(spec_digits_val(stripped)))), after))
        }
    } else if spec_is_ident_char(c) {
        let (text, after) = spec_scan_ident(s, pos + 1, seq![c]);
        Ok((Some(spec_word_token(text)), after))
    } else {
        Err(LexerErrorV::UnexpectedChar(c))
    }
}

/// The position a step hands the scan on to, held inside the input: at
/// least one character on, at most the end.
pub open spec fn spec_step_next(s: Seq<char>, pos: int, next: int) -> int {
    if next < pos + 1 {
        pos + 1
    } else if next > s.len() {
        s.len() as int
    } else {
        next
    }
}

/// The lexer from position `pos` on: steps through the input, appending a
/// traced token for every step that yields one, until the end of the input
/// or the first error. `last` is the end position of the token before, the
/// begin position of the next.
pub open spec fn spec_lex_from(
    s: Seq<char>,
    pos: int,
    last: FilePosV,
    acc: Seq<TracedTokenV>,
) -> Result<Seq<TracedTokenV>, LexerErrorV>
    decreases s.len() - pos,
{
    if pos < 0 || pos >= s.len() {
        Ok(acc)
    } else {
        match spec_step(s, pos) {
            Err(e) => Err(e),
            Ok((token, next_raw)) => {
                let next = spec_step_next(s, pos, next_raw);
                match token {
                    None => spec_lex_from(s, next, last, acc),
                    Some(t) => {
                        let end = spec_file_pos(s, next);
                        spec_lex_from(
                            s,
                            next,
                            end,
                            acc.push(
                                TracedTokenV {
                                    token: t,
                                    trace: TraceV {
                                        source_file: Seq::empty(),
                                        begin_pos: last,
                                        end_pos: end,
                                    },
                                },
                            ),
                        )
                    },
                }
            },
        }
    }
}

/// What tokenizing the whole text yields: the traced tokens in order, or
/// the first error.
pub open spec fn spec_tokenize(s: Seq<char>) -> Result<Seq<TracedTokenV>, LexerErrorV> {
    spec_lex_from(s, 0, FilePosV { row: 0, column: 0 }, Seq::empty())
}

/// Every integer literal that the lexer reads before the end of the input
/// or its first error has a value that fits in an `i64`.
pub open spec fn spec_ints_fit_from(s: Seq<char>, pos: int) -> bool
    decreases s.len() - pos,
{
    if pos < 0 || pos >= s.len() {
        true
    } else {
        match spec_step(s, pos) {
            Err(_) => true,
            Ok((token, next_raw)) => {
                let next = spec_step_next(s, pos, next_raw);
                (match token {
                    Some(TokenV::Literal(LiteralV::Integer(v))) => v <= i64::MAX as int,
                    _ => true,
                }) && spec_ints_fit_from(s, next)
            },
        }
    }
}

/// Every integer literal in the text fits in an `i64`; the one demand the
/// lexer makes of its input.
pub open spec fn spec_ints_fit(s: Seq<char>) -> bool {
    spec_ints_fit_from(s, 0)
}

/// The bare tokens the lexer reads from position `pos` on, without their
/// traces: the suffix-compositional face of the lexer.
pub open spec fn spec_lex_tokens(s: Seq<char>, pos: int) -> Result<Seq<TokenV>, LexerErrorV>
    decreases s.len() - pos,
{
    if pos < 0 || pos >= s.len() {
        Ok(Seq::empty())
    } else {
        match spec_step(s, pos) {
            Err(e) => Err(e),
            Ok((token, next_raw)) => {
                let next = spec_step_next(s, pos, next_raw);
                match spec_lex_tokens(s, next) {
                    Err(e) => Err(e),
                    Ok(rest) => Ok(
                        (match token {
                            None => Seq::empty(),
                            Some(t) => seq![t],
                        }) + rest,
                    ),
                }
            },
        }
    }
}

/// The traced tokens of the full lexer carry exactly the bare tokens of
/// the trace-free one, in order; the errors agree.
pub proof fn lemma_lex_projection(s: Seq<char>, pos: int, last: FilePosV, acc: Seq<TracedTokenV>)
    ensures
        match (spec_lex_from(s, pos, last, acc), spec_lex_tokens(s, pos)) {
            (Ok(traced), Ok(bare)) => Seq::new(traced.len(), |i: int| traced[i].token) == Seq::new(
                acc.len(),
                |i: int| acc[i].token,
            ) + bare,
            (Err(a), Err(b)) => a == b,
            _ => false,
        },
    decreases s.len() - pos,
{
    if pos < 0 || pos >= s.len() {
        assert(Seq::new(acc.len(), |i: int| acc[i].token) + Seq::<TokenV>::empty() =~= Seq::new(
            acc.len(),
            |i: int| acc[i].token,
        ));
    } else {
        match spec_step(s, pos) {
            Err(_) => {},
            Ok((token, next_raw)) => {
                let next = spec_step_next(s, pos, next_raw);
                match token {
                    None => {
                        lemma_lex_projection(s, next, last, acc);
                    },
                    Some(t) => {
                        let end = spec_file_pos(s, next);
                        let tt = TracedTokenV {
                            token: t,
                            trace: TraceV {
                                source_file: Seq::empty(),
                                begin_pos: last,
                                end_pos: end,
                            },
                        };
                        lemma_lex_projection(s, next, end, acc.push(tt));
                        match (spec_lex_from(s, pos, last, acc), spec_lex_tokens(s, next)) {
                            (Ok(_), Ok(rest)) => {
                                assert(Seq::new(acc.push(tt).len(), |i: int| acc.push(tt)[i].token)
                                    =~= Seq::new(acc.len(), |i: int| acc[i].token).push(t));
                                assert(Seq::new(acc.len(), |i: int| acc[i].token).push(t) + rest
                                    =~= Seq::new(acc.len(), |i: int| acc[i].token) + (seq![t]
                                    + rest));
                            },
                            _ => {},
                        }
                    },
                }
            },
        }
    }
}

/// Traced tokens cover the input contiguously: from any lexer state whose
/// collected tokens already chain up to `last`, every token the lexer goes
/// on to read begins where the one before it ended.
proof fn lemma_lex_traces(s: Seq<char>, pos: int, last: FilePosV, acc: Seq<TracedTokenV>)
    requires
        forall|i: int|
            1 <= i < acc.len() ==> #[trigger] acc[i].trace.begin_pos == acc[i - 1].trace.end_pos,
        acc.len() > 0 ==> acc.last().trace.end_pos == last,
    ensures
        match spec_lex_from(s, pos, last, acc) {
            Ok(out) => {
                &&& out.len() >= acc.len()
                &&& forall|i: int| 0 <= i < acc.len() ==> #[trigger] out[i] == acc[i]
                &&& forall|i: int|
                    1 <= i < out.len() ==> #[trigger] out[i].trace.begin_pos == out[i
                        - 1].trace.end_pos
                &&& out.len() > acc.len() ==> out[acc.len() as int].trace.begin_pos == last
            },
            Err(_) => true,
        },
    decreases s.len() - pos,
{
    if pos < 0 || pos >= s.len() {
    } else {
        match spec_step(s, pos) {
            Err(_) => {},
            Ok((token, next_raw)) => {
                let next = spec_step_next(s, pos, next_raw);
                match token {
                    None => {
                        lemma_lex_traces(s, next, last, acc);
                    },
                    Some(t) => {
                        let end = spec_file_pos(s, next);
                        let tt = TracedTokenV {
                            token: t,
                            trace: TraceV {
                                source_file: Seq::empty(),
                                begin_pos: last,
                                end_pos: end,
                            },
                        };
                        lemma_lex_traces(s, next, end, acc.push(tt));
                    },
                }
            },
        }
    }
}

/// The trace invariant of the token stream: in what tokenizing yields, the
/// first token begins at the origin, and every later token begins exactly
/// where the one before it ended — contiguous coverage, no gaps.
pub proof fn lemma_tokenize_traces(s: Seq<char>)
    ensures
        match spec_tokenize(s) {
            Ok(traced) => {
                &&& forall|i: int|
                    1 <= i < traced.len() ==> #[trigger] traced[i].trace.begin_pos == traced[i
                        - 1].trace.end_pos
                &&& traced.len() > 0 ==> traced[0].trace.begin_pos == (FilePosV {
                    row: 0,
                    column: 0,
                })
            },
            Err(_) => true,
        },
{
    lemma_lex_traces(s, 0, FilePosV { row: 0, column: 0 }, Seq::empty());
}

/// A maximal run of identifier characters scans as a unit: from inside
/// the run, the scan collects exactly up to its end.
pub proof fn lemma_scan_ident_run(s: Seq<char>, i: int, end: int, acc: Seq<char>)
    requires
        0 <= i <= end <= s.len(),
        forall|k: int| i <= k < end ==> spec_is_ident_char(#[trigger] s[k]),
        end == s.len() || !spec_is_ident_char(s[end]),
    ensures
        spec_scan_ident(s, i, acc) == (acc + s.subrange(i, end), end),
    decreases end - i,
{
    if i == end {
        assert(acc + s.subrange(i, end) =~= acc);
    } else {
        lemma_scan_ident_run(s, i + 1, end, acc.push(s[i]));
        assert(acc.push(s[i]) + s.subrange(i + 1, end) =~= acc + s.subrange(i, end));
    }
}

/// A maximal run of digits scans as a number without a decimal point:
/// from inside the run, the scan collects exactly up to its end.
pub proof fn lemma_scan_number_run(s: Seq<char>, i: int, end: int, acc: Seq<char>)
    requires
        0 <= i <= end <= s.len(),
        forall|k: int| i <= k < end ==> spec_is_digit(#[trigger] s[k]),
        end == s.len() || !(s[end] == '_' || s[end] == '.' || spec_is_digit(s[end])),
    ensures
        spec_scan_number(s, i, false, acc) == (acc + s.subrange(i, end), false, end),
    decreases end - i,
{
    if i == end {
        assert(acc + s.subrange(i, end) =~= acc);
    } else {
        assert(spec_is_digit(s[i]));
        assert(s[i] as int != 95 && s[i] as int != 46);
        lemma_scan_number_run(s, i + 1, end, acc.push(s[i]));
        assert(acc.push(s[i]) + s.subrange(i + 1, end) =~= acc + s.subrange(i, end));
    }
}

/// Stripping separators from digit-only text changes nothing.
pub proof fn lemma_strip_digits_identity(d: Seq<char>)
    requires
        forall|k: int| 0 <= k < d.len() ==> spec_is_digit(#[trigger] d[k]),
    ensures
        spec_strip_underscores(d) == d,
    decreases d.len(),
{
    if d.len() > 0 {
        assert(forall|k: int|
            0 <= k < d.drop_last().len() ==> spec_is_digit(#[trigger] d.drop_last()[k]));
        lemma_strip_digits_identity(d.drop_last());
        assert(d.drop_last().push(d.last()) =~= d);
    }
}

/// The decimal rendering of a number holds digits alone.
pub proof fn lemma_dec_digits_are_digits(n: nat)
    ensures
        forall|k: int|
            0 <= k < spec_dec_digits(n).len() ==> spec_is_digit(#[trigger] spec_dec_digits(n)[k]),
    decreases n,
{
    assert(48 + n % 10 < 58);
    assert(((48 + n % 10) as char) as int == 48 + n % 10);
    if n < 10 {
        assert(((48 + n) as char) as int == 48 + n);
        assert(spec_is_digit(spec_dec_digits(n)[0]));
    }
    if n >= 10 {
        lemma_dec_digits_are_digits(n / 10);
        assert(spec_dec_digits(n).last() == ((48 + n % 10) as char));
        assert(spec_dec_digits(n).len() == spec_dec_digits(n / 10).len() + 1);
        assert(forall|k: int|
            0 <= k < spec_dec_digits(n / 10).len() ==> spec_dec_digits(n)[k] == #[trigger]
            spec_dec_digits(n / 10)[k]);
        assert(forall|k: int|
            0 <= k < spec_dec_digits(n).len() ==> spec_is_digit(#[trigger] spec_dec_digits(n)[k]))
            by {
            assert(forall|k: int|
                0 <= k < spec_dec_digits(n).len() - 1 ==> spec_is_digit(
                    #[trigger] spec_dec_digits(n)[k],
                ));
            assert(spec_is_digit(spec_dec_digits(n)[spec_dec_digits(n).len() - 1]));
        }
    }
}

/// Reading the decimal rendering of a number back as digits yields the
/// number.
pub proof fn lemma_digits_val_of_dec(n: nat)
    ensures
        spec_digits_val(spec_dec_digits(n)) == n,
    decreases n,
{
    assert(48 + n % 10 < 58);
    assert(((48 + n % 10) as char) as int == 48 + n % 10);
    if n < 10 {
        assert(((48 + n) as char) as int == 48 + n);
        assert(spec_dec_digits(n) =~= seq![((48 + n) as char)]);
        assert(spec_dec_digits(n).last() == ((48 + n) as char));
        assert(spec_dec_digits(n).drop_last() =~= Seq::<char>::empty());
        assert(spec_digits_val(Seq::<char>::empty()) == 0);
        assert(spec_digits_val(spec_dec_digits(n)) == spec_digits_val(
            spec_dec_digits(n).drop_last(),
        ) * 10 + crate::text::spec_digit_val(spec_dec_digits(n).last()));
    } else {
        lemma_digits_val_of_dec(n / 10);
        assert(spec_dec_digits(n).drop_last() =~= spec_dec_digits(n / 10));
        assert(spec_dec_digits(n).last() == ((48 + n % 10) as char));
        assert(spec_digits_val(spec_dec_digits(n)) == spec_digits_val(spec_dec_digits(n / 10)) * 10
            + (n % 10));
    }
}

fn double_op(a: char, b: char) -> (r: Option<Operator>)
    ensures
        r == spec_double_op(a, b),
{
    if a == '=' && b == '=' {
        Some(Operator::Equals)
    } else if a == '!' && b == '=' {
        Some(Operator::NotEquals)
    } else if a == '>' && b == '=' {
        Some(Operator::GreaterOrEquals)
    } else if a == '<' && b == '=' {
        Some(Operator::LessOrEquals)
    } else if a == '-' && b == '>' {
        Some(Operator::ThinArrow)
    } else if a == '=' && b == '>' {
        Some(Operator::Arrow)
    } else if a == '<' && b == '<' {
        Some(Operator::ShiftLeft)
    } else if a == '>' && b == '>' {
        Some(Operator::ShiftRight)
    } else {
        None
    }
}

fn simple_op(c: char) -> (r: Option<Operator>)
    ensures
        r == spec_simple_op(c),
{
    match c {
        '+' => Some(Operator::Add),
        '-' => Some(Operator::Minus),
        '*' => Some(Operator::Star),
        '/' => Some(Operator::Divide),
        '%' => Some(Operator::Mod),
        ',' => Some(Operator::Comma),
        '.' => Some(Operator::Dot),
        ':' => Some(Operator::Colon),
        ';' => Some(Operator::SemiColon),
        '>' => Some(Operator::Greater),
        '<' => Some(Operator::Less),
        '=' => Some(Operator::Assignment),
        '&' => Some(Operator::Reference),
        _ => None,
    }
}

fn paren_of(c: char) -> (r: Option<Parenthetical>)
    ensures
        r == spec_paren(c),
{
    match c {
        '(' => Some(Parenthetical::NormalOpen),
        ')' => Some(Parenthetical::NormalClose),
        '[' => Some(Parenthetical::BracketOpen),
        ']' => Some(Parenthetical::BracketClose),
        '{' => Some(Parenthetical::CurlyOpen),
        '}' => Some(Parenthetical::CurlyClose),
        _ => None,
    }
}

fn word_token(text: String) -> (t: Token)
    ensures
        t@ == spec_word_token(text@),
{
    let s = text.as_str();
    if str_eq(s, "and") {
        Token::Operator(Operator::And)
    } else if str_eq(s, "or") {
        Token::Operator(Operator::Or)
    } else if str_eq(s, "not") {
        Token::Operator(Operator::Not)
    } else if str_eq(s, "xor") {
        Token::Operator(Operator::Xor)
    } else if str_eq(s, "mod") {
        Token::Operator(Operator::Mod)
    } else if str_eq(s, "no_cap") || str_eq(s, "true") {
        Token::Literal(Literal::Bool(true))
    } else if str_eq(s, "cap") || str_eq(s, "false") {
        Token::Literal(Literal::Bool(false))
    } else if str_eq(s, "function") {
        Token::Keyword(Keyword::Function)
    } else if str_eq(s, "return") {
        Token::Keyword(Keyword::Return)
    } else if str_eq(s, "break") {
        Token::Keyword(Keyword::Break)
    } else if str_eq(s, "while") {
        Token::Keyword(Keyword::While)
    } else if str_eq(s, "for") {
        Token::Keyword(Keyword::For)
    } else if str_eq(s, "let") {
        Token::Keyword(Keyword::Let)
    } else if str_eq(s, "var") {
        Token::Keyword(Keyword::Var)
    } else if str_eq(s, "in") {
        Token::Keyword(Keyword::In)
    } else if str_eq(s, "const") {
        Token::Keyword(Keyword::Const)
    } else if str_eq(s, "as") {
        Token::Keyword(Keyword::As)
    } else {
        Token::Identifier(Identifier(text))
    }
}

fn scan_quoted(chars: &Vec<char>, start: usize, q: char) -> (r: (Vec<char>, Option<usize>))
    requires
        start <= chars@.len(),
        chars@.len() < usize::MAX,
    ensures
        ({
            let (rawv, afterv) = spec_scan_quoted(chars@, start as int, q, Seq::empty());
            &&& r.0@ == rawv
            &&& match (r.1, afterv) {
                (Some(a), Some(av)) => a as int == av && start < a <= chars@.len(),
                (None, None) => true,
                _ => false,
            }
        }),
{
    let mut raw: Vec<char> = Vec::new();
    let mut i = start;
    let mut after: Option<usize> = None;
    proof {
        assert(raw@ =~= Seq::<char>::empty());
    }
    loop
        invariant_except_break
            start <= i <= chars@.len(),
            chars@.len() < usize::MAX,
            after is None,
            spec_scan_quoted(chars@, i as int, q, raw@) == spec_scan_quoted(
                chars@,
                start as int,
                q,
                Seq::empty(),
            ),
        ensures
            ({
                let (rawv, afterv) = spec_scan_quoted(chars@, start as int, q, Seq::empty());
                &&& raw@ == rawv
                &&& match (after, afterv) {
                    (Some(a), Some(av)) => a as int == av && start < a <= chars@.len(),
                    (None, None) => true,
                    _ => false,
                }
            }),
        decreases chars@.len() - i,
    {
        if i >= chars.len() {
            break ;
        }
        let c = chars[i];
        if c == q {
            after = Some(i + 1);
            break ;
        }
        if c == '\\' {
            if i + 1 < chars.len() {
                raw.push('\\');
                raw.push(chars[i + 1]);
                i = i + 2;
            } else {
                raw.push('\\');
                break ;
            }
        } else {
            raw.push(c);
            i = i + 1;
        }
    }
    (raw, after)
}

fn scan_number(chars: &Vec<char>, pos: usize) -> (r: (Vec<char>, bool, usize))
    requires
        pos < chars@.len(),
        chars@.len() < usize::MAX,
        spec_is_digit(chars@[pos as int]),
    ensures
        ({
            let (textv, hdv, afterv) = spec_scan_number(
                chars@,
                pos as int + 1,
                false,
                seq![chars@[pos as int]],
            );
            &&& r.0@ == textv
            &&& r.1 == hdv
            &&& r.2 as int == afterv
            &&& pos < r.2 <= chars@.len()
            &&& forall|j: int|
                0 <= j < r.0@.len() ==> (spec_is_digit(#[trigger] r.0@[j]) || r.0@[j] == '_'
                    || r.0@[j] == '.')
            &&& (!r.1 ==> forall|j: int| 0 <= j < r.0@.len() ==> #[trigger] r.0@[j] != '.')
        }),
{
    let mut text: Vec<char> = Vec::new();
    text.push(chars[pos]);
    let mut has_dec = false;
    let mut i = pos + 1;
    proof {
        assert(text@ =~= seq![chars@[pos as int]]);
    }
    loop
        invariant_except_break
            pos as int + 1 <= i as int,
            i <= chars@.len(),
            chars@.len() < usize::MAX,
            spec_scan_number(chars@, i as int, has_dec, text@) == spec_scan_number(
                chars@,
                pos as int + 1,
                false,
                seq![chars@[pos as int]],
            ),
            forall|j: int|
                0 <= j < text@.len() ==> (spec_is_digit(#[trigger] text@[j]) || text@[j] == '_'
                    || text@[j] == '.'),
            !has_dec ==> forall|j: int| 0 <= j < text@.len() ==> #[trigger] text@[j] != '.',
        ensures
            ({
                let (textv, hdv, afterv) = spec_scan_number(
                    chars@,
                    pos as int + 1,
                    false,
                    seq![chars@[pos as int]],
                );
                &&& text@ == textv
                &&& has_dec == hdv
                &&& i as int == afterv
                &&& pos < i <= chars@.len()
                &&& forall|j: int|
                    0 <= j < text@.len() ==> (spec_is_digit(#[trigger] text@[j]) || text@[j] == '_'
                        || text@[j] == '.')
                &&& (!has_dec ==> forall|j: int| 0 <= j < text@.len() ==> #[trigger] text@[j] != '.')
            }),
        decreases chars@.len() - i,
    {
        if i >= chars.len() {
            break ;
        }
        let c = chars[i];
        if c == '_' || (c == '.' && !has_dec) || is_digit(c) {
            text.push(c);
            has_dec = has_dec || c == '.';
            i = i + 1;
        } else {
            break ;
        }
    }
    (text, has_dec, i)
}

fn scan_ident(chars: &Vec<char>, pos: usize) -> (r: (Vec<char>, usize))
    requires
        pos < chars@.len(),
        chars@.len() < usize::MAX,
        spec_is_ident_char(chars@[pos as int]),
    ensures
        ({
            let (textv, afterv) = spec_scan_ident(chars@, pos as int + 1, seq![chars@[pos as int]]);
            &&& r.0@ == textv
            &&& r.1 as int == afterv
            &&& pos < r.1 <= chars@.len()
        }),
{
    let mut text: Vec<char> = Vec::new();
    text.push(chars[pos]);
    let mut i = pos + 1;
    proof {
        assert(text@ =~= seq![chars@[pos as int]]);
    }
    loop
        invariant_except_break
            pos as int + 1 <= i as int,
            i <= chars@.len(),
            chars@.len() < usize::MAX,
            spec_scan_ident(chars@, i as int, text@) == spec_scan_ident(
                chars@,
                pos as int + 1,
                seq![chars@[pos as int]],
            ),
        ensures
            ({
                let (textv, afterv) = spec_scan_ident(
                    chars@,
                    pos as int + 1,
                    seq![chars@[pos as int]],
                );
                &&& text@ == textv
                &&& i as int == afterv
                &&& pos < i <= chars@.len()
            }),
        decreases chars@.len() - i,
    {
        if i >= chars.len() {
            break ;
        }
        let c = chars[i];
        if is_ident_char(c) {
            text.push(c);
            i = i + 1;
        } else {
            break ;
        }
    }
    (text, i)
}

fn strip_underscores(v: &Vec<char>) -> (r: Vec<char>)
    ensures
        r@ == spec_strip_underscores(v@),
        forall|j: int|
            0 <= j < r@.len() ==> (v@.contains(#[trigger] r@[j]) && r@[j] != '_'),
{
    let mut out: Vec<char> = Vec::new();
    let mut i: usize = 0;
    proof {
        assert(v@.take(0) =~= Seq::<char>::empty());
        assert(out@ =~= spec_strip_underscores(v@.take(0)));
    }
    while i < v.len()
        invariant
            i <= v@.len(),
            out@ == spec_strip_underscores(v@.take(i as int)),
            forall|j: int|
                0 <= j < out@.len() ==> (v@.contains(#[trigger] out@[j]) && out@[j] != '_'),
        decreases v@.len() - i,
    {
        proof {
            assert(v@.take(i as int + 1).drop_last() =~= v@.take(i as int));
            assert(v@.take(i as int + 1).last() == v@[i as int]);
        }
        let c = v[i];
        if c != '_' {
            out.push(c);
        }
        i = i + 1;
    }
    proof {
        assert(v@.take(v@.len() as int) =~= v@);
    }
    out
}

proof fn lemma_digits_val_nonneg(s: Seq<char>)
    requires
        forall|j: int| 0 <= j < s.len() ==> spec_is_digit(#[trigger] s[j]),
    ensures
        spec_digits_val(s) >= 0,
    decreases s.len(),
{
    if s.len() > 0 {
        assert(forall|j: int|
            0 <= j < s.drop_last().len() ==> spec_is_digit(#[trigger] s.drop_last()[j]));
        lemma_digits_val_nonneg(s.drop_last());
    }
}

proof fn lemma_digits_val_prefix(s: Seq<char>, i: int)
    requires
        0 <= i <= s.len(),
        forall|j: int| 0 <= j < s.len() ==> spec_is_digit(#[trigger] s[j]),
    ensures
        spec_digits_val(s.take(i)) <= spec_digits_val(s),
    decreases s.len() - i,
{
    if i == s.len() {
        assert(s.take(i) =~= s);
    } else {
        assert(s.take(i + 1).drop_last() =~= s.take(i));
        assert(forall|j: int|
            0 <= j < s.take(i).len() ==> spec_is_digit(#[trigger] s.take(i)[j]));
        lemma_digits_val_nonneg(s.take(i));
        assert(spec_digits_val(s.take(i + 1)) == spec_digits_val(s.take(i)) * 10
            + crate::text::spec_digit_val(s.take(i + 1).last()));
        lemma_digits_val_prefix(s, i + 1);
    }
}

fn digits_to_i64(v: &Vec<char>) -> (r: i64)
    requires
        forall|j: int| 0 <= j < v@.len() ==> spec_is_digit(#[trigger] v@[j]),
        spec_digits_val(v@) <= i64::MAX as int,
    ensures
        r as int == spec_digits_val(v@),
        r >= 0,
{
    let mut val: i64 = 0;
    let mut i: usize = 0;
    proof {
        assert(v@.take(0) =~= Seq::<char>::empty());
    }
    while i < v.len()
        invariant
            i <= v@.len(),
            forall|j: int| 0 <= j < v@.len() ==> spec_is_digit(#[trigger] v@[j]),
            spec_digits_val(v@) <= i64::MAX as int,
            val as int == spec_digits_val(v@.take(i as int)),
            val >= 0,
        decreases v@.len() - i,
    {
        proof {
            assert(v@.take(i as int + 1).drop_last() =~= v@.take(i as int));
            assert(v@.take(i as int + 1).last() == v@[i as int]);
            lemma_digits_val_prefix(v@, i as int + 1);
        }
        let d = ((v[i] as u32) - 48) as i64;
        val = val * 10 + d;
        i = i + 1;
    }
    proof {
        assert(v@.take(v@.len() as int) =~= v@);
    }
    val
}

fn digits_fit(v: &Vec<char>) -> (b: bool)
    requires
        forall|j: int| 0 <= j < v@.len() ==> spec_is_digit(#[trigger] v@[j]),
    ensures
        b == (spec_digits_val(v@) <= i64::MAX as int),
{
    let mut val: i64 = 0;
    let mut i: usize = 0;
    proof {
        assert(v@.take(0) =~= Seq::<char>::empty());
    }
    while i < v.len()
        invariant
            i <= v@.len(),
            forall|j: int| 0 <= j < v@.len() ==> spec_is_digit(#[trigger] v@[j]),
            val as int == spec_digits_val(v@.take(i as int)),
            val >= 0,
        decreases v@.len() - i,
    {
        proof {
            assert(v@.take(i as int + 1).drop_last() =~= v@.take(i as int));
            assert(v@.take(i as int + 1).last() == v@[i as int]);
        }
        let d = ((v[i] as u32) - 48) as i64;
        let x = match val.checked_mul(10) {
            Some(x) => x,
            None => {
                proof {
                    lemma_digits_val_prefix(v@, i as int + 1);
                }
                return false;
            },
        };
        let y = match x.checked_add(d) {
            Some(y) => y,
            None => {
                proof {
                    lemma_digits_val_prefix(v@, i as int + 1);
                }
                return false;
            },
        };
        val = y;
        i = i + 1;
    }
    proof {
        assert(v@.take(v@.len() as int) =~= v@);
    }
    true
}

/// One step of the lexer over the character vector: the token read at
/// `pos` (none for whitespace) and the position after it, or the error
/// that stops the scan.
fn lex_step(chars: &Vec<char>, pos: usize) -> (r: Result<(Option<Token>, usize), LexerError>)
    requires
        pos < chars@.len(),
        chars@.len() < usize::MAX,
        match spec_step(chars@, pos as int) {
            Ok((token, _)) => match token {
                Some(TokenV::Literal(LiteralV::Integer(v))) => v <= i64::MAX as int,
                _ => true,
            },
            Err(_) => true,
        },
    ensures
        match (&r, spec_step(chars@, pos as int)) {
            (Ok((token, next)), Ok((tokenv, nextv))) => {
                &&& pos < *next <= chars@.len()
                &&& *next as int == spec_step_next(chars@, pos as int, nextv)
                &&& match (token, tokenv) {
                    (Some(t), Some(tv)) => t@ == tv,
                    (None, None) => true,
                    _ => false,
                }
            },
            (Err(e), Err(ev)) => e@ == ev,
            _ => false,
        },
{
    let c = chars[pos];
    if c == '"' {
        let (raw, after) = scan_quoted(chars, pos + 1, '"');
        match after {
            None => Err(LexerError::UnterminatedLiteral(string_from_chars(raw.as_slice()))),
            Some(after) => {
                let raw_s = string_from_chars(raw.as_slice());
                match decode_escapes(&raw_s) {
                    Ok(text) => Ok((Some(Token::Literal(Literal::String(text))), after)),
                    Err(cause) => Err(LexerError::InvalidLiteral(raw_s, cause)),
                }
            },
        }
    } else if c == '\'' {
        let (raw, after) = scan_quoted(chars, pos + 1, '\'');
        match after {
            None => Err(LexerError::UnterminatedLiteral(string_from_chars(raw.as_slice()))),
            Some(after) => {
                let raw_s = string_from_chars(raw.as_slice());
                match decode_escapes(&raw_s) {
                    Ok(text) => {
                        let n = text.as_str().unicode_len();
                        if n > 1 {
                            Err(LexerError::LongCharacterLiteral(text))
                        } else if n == 0 {
                            Err(LexerError::EmptyLiteral)
                        } else {
                            Ok(
                                (
                                    Some(
                                        Token::Literal(
                                            Literal::Character(text.as_str().get_char(0)),
                                        ),
                                    ),
                                    after,
                                ),
                            )
                        }
                    },
                    Err(cause) => Err(LexerError::InvalidLiteral(raw_s, cause)),
                }
            },
        }
    } else if is_whitespace(c) {
        Ok((None, pos + 1))
    } else {
        let d = if pos + 1 < chars.len() {
            double_op(c, chars[pos + 1])
        } else {
            None
        };
        match d {
            Some(op) => Ok((Some(Token::Operator(op)), pos + 2)),
            None => match paren_of(c) {
                Some(p) => Ok((Some(Token::Parenthetical(p)), pos + 1)),
                None => match simple_op(c) {
                    Some(op) => Ok((Some(Token::Operator(op)), pos + 1)),
                    None => {
                        if is_digit(c) {
                            let (text, has_dec, after) = scan_number(chars, pos);
                            let stripped = strip_underscores(&text);
                            if has_dec {
                                Ok(
                                    (
                                        Some(
                                            Token::Literal(
                                                Literal::Float(
                                                    string_from_chars(stripped.as_slice()),
                                                ),
                                            ),
                                        ),
                                        after,
                                    ),
                                )
                            } else {
                                proof {
                                    assert(forall|j: int|
                                        0 <= j < stripped@.len() ==> spec_is_digit(
                                            #[trigger] stripped@[j],
                                        ));
                                }
                                let value = digits_to_i64(&stripped);
                                Ok((Some(Token::Literal(Literal::Integer(value))), after))
                            }
                        } else if is_ident_char(c) {
                            let (text, after) = scan_ident(chars, pos);
                            let t = word_token(string_from_chars(text.as_slice()));
                            Ok((Some(t), after))
                        } else {
                            Err(LexerError::UnexpectedChar(c))
                        }
                    },
                },
            },
        }
    }
}

/// The source position after consuming the first `upto` characters: the
/// row is the count of line breaks there, the column the count of
/// characters after the last line break, one-based.
fn compute_filepos(chars: &Vec<char>, upto: usize) -> (p: FilePos)
    requires
        upto <= chars@.len(),
        chars@.len() < usize::MAX,
    ensures
        p@ == spec_file_pos(chars@, upto as int),
{
    let mut row: usize = 0;
    let mut col: usize = 1;
    let mut i: usize = 0;
    proof {
        assert(chars@.take(0) =~= Seq::<char>::empty());
    }
    while i < upto
        invariant
            i <= upto <= chars@.len(),
            chars@.len() < usize::MAX,
            row as int == spec_row_of(chars@.take(i as int)),
            col as int == spec_col_of(chars@.take(i as int)),
            row <= i,
            col <= i + 1,
        decreases upto - i,
    {
        proof {
            assert(chars@.take(i as int + 1).drop_last() =~= chars@.take(i as int));
            assert(chars@.take(i as int + 1).last() == chars@[i as int]);
        }
        if chars[i] == '\n' {
            row = row + 1;
            col = 1;
        } else {
            col = col + 1;
        }
        i = i + 1;
    }
    FilePos { row, column: col }
}

/// Turns source text into its ordered sequence of traced tokens, or the
/// first lexer error. The input must be shorter than `usize::MAX`
/// characters and every integer literal in it must fit in an `i64`;
/// `int_literals_fit` decides the latter.
pub fn tokenize(contents: String) -> (r: Result<Vec<TracedToken>, LexerError>)
    requires
        contents@.len() < usize::MAX,
        spec_ints_fit(contents@),
    ensures
        match (&r, spec_tokenize(contents@)) {
            (Ok(tokens), Ok(tv)) => traced_tokens_view(tokens@) == tv,
            (Err(e), Err(ev)) => e@ == ev,
            _ => false,
        },
{
    let chars = chars_of(contents.as_str());
    let n = chars.len();
    let mut tokens: Vec<TracedToken> = Vec::new();
    let mut pos: usize = 0;
    let mut last = FilePos::beginning();
    proof {
        assert(traced_tokens_view(tokens@) =~= Seq::<TracedTokenV>::empty());
    }
    while pos < n
        invariant
            chars@ == contents@,
            n == chars@.len(),
            n < usize::MAX,
            pos <= n,
            spec_ints_fit_from(contents@, pos as int),
            spec_lex_from(contents@, pos as int, last@, traced_tokens_view(tokens@))
                == spec_tokenize(contents@),
        decreases n - pos,
    {
        match lex_step(&chars, pos) {
            Err(e) => {
                return Err(e);
            },
            Ok((token, next)) => {
                match token {
                    None => {},
                    Some(t) => {
                        let end = compute_filepos(&chars, next);
                        let tt = TracedToken {
                            token: t,
                            trace: Trace {
                                source_file: String::new(),
                                begin_pos: last,
                                end_pos: end,
                            },
                        };
                        proof {
                            assert(traced_tokens_view(tokens@.push(tt)) =~= traced_tokens_view(
                                tokens@,
                            ).push(tt@));
                        }
                        tokens.push(tt);
                        last = end;
                    },
                }
                pos = next;
            },
        }
    }
    Ok(tokens)
}

/// One fit-checking step: whether the token read at `pos`, if an integer
/// literal, has a value that fits in an `i64`, and the position after it;
/// an error where the lexer would stop.
fn fit_step(chars: &Vec<char>, pos: usize) -> (r: Result<(bool, usize), ()>)
    requires
        pos < chars@.len(),
        chars@.len() < usize::MAX,
    ensures
        match (&r, spec_step(chars@, pos as int)) {
            (Ok((okf, next)), Ok((tokenv, nextv))) => {
                &&& pos < *next <= chars@.len()
                &&& *next as int == spec_step_next(chars@, pos as int, nextv)
                &&& *okf == match tokenv {
                    Some(TokenV::Literal(LiteralV::Integer(v))) => v <= i64::MAX as int,
                    _ => true,
                }
            },
            (Err(_), Err(_)) => true,
            _ => false,
        },
{
    let c = chars[pos];
    if c == '"' {
        let (raw, after) = scan_quoted(chars, pos + 1, '"');
        match after {
            None => Err(()),
            Some(after) => {
                let raw_s = string_from_chars(raw.as_slice());
                match decode_escapes(&raw_s) {
                    Ok(_) => Ok((true, after)),
                    Err(_) => Err(()),
                }
            },
        }
    } else if c == '\'' {
        let (raw, after) = scan_quoted(chars, pos + 1, '\'');
        match after {
            None => Err(()),
            Some(after) => {
                let raw_s = string_from_chars(raw.as_slice());
                match decode_escapes(&raw_s) {
                    Ok(text) => {
                        let n = text.as_str().unicode_len();
                        if n == 1 {
                            Ok((true, after))
                        } else {
                            Err(())
                        }
                    },
                    Err(_) => Err(()),
                }
            },
        }
    } else if is_whitespace(c) {
        Ok((true, pos + 1))
    } else {
        let d = if pos + 1 < chars.len() {
            double_op(c, chars[pos + 1])
        } else {
            None
        };
        match d {
            Some(_) => Ok((true, pos + 2)),
            None => match paren_of(c) {
                Some(_) => Ok((true, pos + 1)),
                None => match simple_op(c) {
                    Some(_) => Ok((true, pos + 1)),
                    None => {
                        if is_digit(c) {
                            let (text, has_dec, after) = scan_number(chars, pos);
                            if has_dec {
                                Ok((true, after))
                            } else {
                                let stripped = strip_underscores(&text);
                                proof {
                                    assert(forall|j: int|
                                        0 <= j < stripped@.len() ==> spec_is_digit(
                                            #[trigger] stripped@[j],
                                        ));
                                }
                                Ok((digits_fit(&stripped), after))
                            }
                        } else if is_ident_char(c) {
                            let (_, after) = scan_ident(chars, pos);
                            Ok((true, after))
                        } else {
                            Err(())
                        }
                    },
                },
            },
        }
    }
}

/// Decides whether every integer literal that the lexer would read in the
/// text has a value that fits in an `i64`: exactly the demand `tokenize`
/// makes of its input.
pub fn int_literals_fit(s: &str) -> (b: bool)
    requires
        s@.len() < usize::MAX,
    ensures
        b == spec_ints_fit(s@),
{
    let chars = chars_of(s);
    let n = chars.len();
    let mut pos: usize = 0;
    while pos < n
        invariant
            chars@ == s@,
            n == chars@.len(),
            n < usize::MAX,
            pos <= n,
            spec_ints_fit(s@) == spec_ints_fit_from(s@, pos as int),
        decreases n - pos,
    {
        match fit_step(&chars, pos) {
            Err(_) => {
                return true;
            },
            Ok((okf, next)) => {
                if !okf {
                    return false;
                }
                pos = next;
            },
        }
    }
    true
}

/// Tokenizes after deciding that every integer literal fits in an `i64`:
/// yields `None` exactly where one does not, else the result of
/// `tokenize`.
pub fn try_tokenize(contents: String) -> (r: Option<Result<Vec<TracedToken>, LexerError>>)
    requires
        contents@.len() < usize::MAX,
    ensures
        r is None <==> !spec_ints_fit(contents@),
        match (&r, spec_tokenize(contents@)) {
            (Some(Ok(tokens)), Ok(tv)) => traced_tokens_view(tokens@) == tv,
            (Some(Err(e)), Err(ev)) => e@ == ev,
            (None, _) => true,
            _ => false,
        },
{
    if int_literals_fit(contents.as_str()) {
        Some(tokenize(contents))
    } else {
        None
    }
}

} // verus!
