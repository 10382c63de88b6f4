//! The lexical grammar, stated on sequences of characters.
//!
//! Nothing here is executable. [`lex_at`] says what the lexeme at a given
//! position is, and [`scan_from`] what a whole scan reports; the scanner is
//! proved to compute exactly these.

use vstd::prelude::*;
use crate::types::{ScanOptions, TokenType, TokenView};

verus! {

/// An ASCII decimal digit.
pub open spec fn is_digit(c: char) -> bool {
    '0' <= c && c <= '9'
}

/// An ASCII letter or the underscore: what an identifier may start with.
pub open spec fn is_letter(c: char) -> bool {
    ('a' <= c && c <= 'z') || ('A' <= c && c <= 'Z') || c == '_'
}

/// Space, carriage return or tab: consumed without a token and without a new line.
pub open spec fn is_blank(c: char) -> bool {
    c == ' ' || c == '\r' || c == '\t'
}

/// The token type of a character that is always a token by itself.
pub open spec fn punctuation(c: char) -> Option<TokenType> {
    if c == '(' {
        Some(TokenType::LeftParen)
    } else if c == ')' {
        Some(TokenType::RightParen)
    } else if c == '{' {
        Some(TokenType::LeftBrace)
    } else if c == '}' {
        Some(TokenType::RightBrace)
    } else if c == ',' {
        Some(TokenType::Comma)
    } else if c == '.' {
        Some(TokenType::Dot)
    } else if c == '-' {
        Some(TokenType::Minus)
    } else if c == '+' {
        Some(TokenType::Plus)
    } else if c == ';' {
        Some(TokenType::Semicolon)
    } else if c == '*' {
        Some(TokenType::Star)
    } else {
        None
    }
}

/// For a character that may be followed by `=` to form a longer operator:
/// the token type when it is, then the token type when it is not.
pub open spec fn operator(c: char) -> Option<(TokenType, TokenType)> {
    if c == '!' {
        Some((TokenType::BangEqual, TokenType::Bang))
    } else if c == '=' {
        Some((TokenType::EqualEqual, TokenType::Equal))
    } else if c == '<' {
        Some((TokenType::LessEqual, TokenType::Less))
    } else if c == '>' {
        Some((TokenType::GreaterEqual, TokenType::Greater))
    } else {
        None
    }
}

/// The reserved words, each with its token type.
pub open spec fn keyword_map() -> Map<Seq<char>, TokenType> {
    map![
        "and"@ => TokenType::And,
        "class"@ => TokenType::Class,
        "else"@ => TokenType::Else,
        "false"@ => TokenType::False,
        "fun"@ => TokenType::Fun,
        "for"@ => TokenType::For,
        "if"@ => TokenType::If,
        "nil"@ => TokenType::Nil,
        "or"@ => TokenType::Or,
        "print"@ => TokenType::Print,
        "return"@ => TokenType::Return,
        "super"@ => TokenType::Super,
        "this"@ => TokenType::This,
        "true"@ => TokenType::True,
        "var"@ => TokenType::Var,
        "while"@ => TokenType::While,
    ]
}

/// The token type of a word: its entry in the keyword table if it has one,
/// `Identifier` otherwise. The comparison is exact and case-sensitive.
pub open spec fn word_type(word: Seq<char>) -> TokenType {
    if keyword_map().contains_key(word) {
        keyword_map()[word]
    } else {
        TokenType::Identifier
    }
}

/// The message reported for a string literal that is still open at the end of the input.
pub open spec fn unterminated_string() -> Seq<char> {
    "String didn't terminate before end of file"@
}

/// The message reported for a character that no rule of the grammar accepts.
pub open spec fn unrecognized_character() -> Seq<char> {
    "Did not recognize the token"@
}

/// The kinds of character a lexeme of more than fixed length is made of.
pub enum CharClass {
    /// Letters, digits and the underscore: the body of an identifier or keyword.
    Word,
    /// Decimal digits: the body of a number.
    Digit,
    /// Everything but the newline: the body of a line comment.
    Comment,
    /// Everything but the double quote: the content of a string literal.
    Quoted,
}

impl CharClass {
    /// Whether `c` belongs to the class.
    pub open spec fn holds(self, c: char) -> bool {
        match self {
            CharClass::Word => is_letter(c) || is_digit(c),
            CharClass::Digit => is_digit(c),
            CharClass::Comment => c != '\n',
            CharClass::Quoted => c != '"',
        }
    }
}

/// The end of the longest run of characters of `class` that starts at `from`:
/// the position of the first character at or after `from` that is not in the
/// class, or the length of `src` if there is none.
pub open spec fn run_end(src: Seq<char>, from: int, class: CharClass) -> int
    decreases src.len() - from,
{
    if 0 <= from < src.len() && class.holds(src[from]) {
        run_end(src, from + 1, class)
    } else {
        from
    }
}

/// How many newline characters `s` holds.
pub open spec fn count_newlines(s: Seq<char>) -> int
    decreases s.len(),
{
    if s.len() == 0 {
        0
    } else if s.last() == '\n' {
        count_newlines(s.drop_last()) + 1
    } else {
        count_newlines(s.drop_last())
    }
}

/// The line that position `pos` of `src` is on: one more than the number of
/// newlines before it. Lines are counted from 1.
pub open spec fn line_at(src: Seq<char>, pos: int) -> int {
    1 + count_newlines(src.subrange(0, pos))
}

/// What classifying one lexeme amounts to.
pub struct Lexed {
    /// The token, the diagnostic, or neither.
    pub outcome: ScanOptions<TokenView, Seq<char>>,
    /// Where the text of the lexeme begins.
    pub start: int,
    /// The first position after what was consumed.
    pub next: int,
}

/// The outcome that is a token of type `token_type` whose lexeme is `src`
/// from `from` up to `to`, reported on the line of position `at`.
pub open spec fn lexeme_token(
    src: Seq<char>,
    token_type: TokenType,
    from: int,
    to: int,
    at: int,
) -> ScanOptions<TokenView, Seq<char>> {
    ScanOptions::Token(
        TokenView { token_type, lexeme: src.subrange(from, to), line: line_at(src, at) },
    )
}

/// The character at `pos` is a token by itself, of type `token_type`.
pub open spec fn lex_single(src: Seq<char>, pos: int, token_type: TokenType) -> Lexed {
    Lexed { outcome: lexeme_token(src, token_type, pos, pos + 1, pos), start: pos, next: pos + 1 }
}

/// The character at `pos` may begin a two-character operator: with `second`
/// after it the lexeme is both characters and the type is `pair`, else it is
/// the one character and the type is `single`.
pub open spec fn lex_operator(
    src: Seq<char>,
    pos: int,
    second: char,
    pair: TokenType,
    single: TokenType,
) -> Lexed {
    if pos + 1 < src.len() && src[pos + 1] == second {
        Lexed { outcome: lexeme_token(src, pair, pos, pos + 2, pos), start: pos, next: pos + 2 }
    } else {
        lex_single(src, pos, single)
    }
}

/// The character at `pos` is a slash. Two slashes open a comment that runs
/// up to, and does not include, the next newline or the end of the input;
/// one slash is a token by itself.
pub open spec fn lex_slash(src: Seq<char>, pos: int) -> Lexed {
    if pos + 1 < src.len() && src[pos + 1] == '/' {
        let end: int = run_end(src, pos, CharClass::Comment);
        Lexed {
            outcome: lexeme_token(src, TokenType::Comment, pos, end, pos),
            start: pos,
            next: end,
        }
    } else {
        lex_single(src, pos, TokenType::Slash)
    }
}

/// The character at `pos` is a double quote. The literal's content runs from
/// the next position up to the closing quote, which is consumed too; the
/// token is reported on the line of the closing quote. Without a closing
/// quote the rest of the input is consumed and a diagnostic is reported.
pub open spec fn lex_string(src: Seq<char>, pos: int) -> Lexed {
    let close: int = run_end(src, pos + 1, CharClass::Quoted);
    if close < src.len() {
        Lexed {
            outcome: lexeme_token(src, TokenType::String, pos + 1, close, close),
            start: pos + 1,
            next: close + 1,
        }
    } else {
        Lexed { outcome: ScanOptions::Error(unterminated_string()), start: pos + 1, next: close }
    }
}

/// The character at `pos` is a letter or an underscore. The lexeme is the
/// longest run of letters, digits and underscores from there; it is a
/// keyword if the keyword table holds it and an identifier if not.
pub open spec fn lex_word(src: Seq<char>, pos: int) -> Lexed {
    let end: int = run_end(src, pos, CharClass::Word);
    Lexed {
        outcome: lexeme_token(src, word_type(src.subrange(pos, end)), pos, end, pos),
        start: pos,
        next: end,
    }
}

/// The character at `pos` is a digit. The lexeme is the longest run of
/// digits from there.
pub open spec fn lex_number(src: Seq<char>, pos: int) -> Lexed {
    let end: int = run_end(src, pos, CharClass::Digit);
    Lexed { outcome: lexeme_token(src, TokenType::Number, pos, end, pos), start: pos, next: end }
}

/// The lexeme of `src` that begins at `pos`, chosen by the character there.
pub open spec fn lex_at(src: Seq<char>, pos: int) -> Lexed
    recommends
        0 <= pos < src.len(),
{
    let c: char = src[pos];
    if let Some(token_type) = punctuation(c) {
        lex_single(src, pos, token_type)
    } else if let Some((pair, single)) = operator(c) {
        lex_operator(src, pos, '=', pair, single)
    } else if c == '/' {
        lex_slash(src, pos)
    } else if c == '"' {
        lex_string(src, pos)
    } else if is_blank(c) || c == '\n' {
        Lexed { outcome: ScanOptions::Skip, start: pos, next: pos + 1 }
    } else if is_letter(c) {
        lex_word(src, pos)
    } else if is_digit(c) {
        lex_number(src, pos)
    } else {
        Lexed { outcome: ScanOptions::Error(unrecognized_character()), start: pos, next: pos + 1 }
    }
}

/// What a scan reports: the tokens in the order of the source, and the
/// diagnostics in the order in which they arose, each a line and a message.
pub struct Scanned {
    pub tokens: Seq<TokenView>,
    pub errors: Seq<(int, Seq<char>)>,
}

impl Scanned {
    /// The report of a scan that found nothing.
    pub open spec fn empty() -> Scanned {
        Scanned { tokens: Seq::empty(), errors: Seq::empty() }
    }

    /// This report with the outcome of one more classification at its end;
    /// a diagnostic is recorded with `line`.
    pub open spec fn record(
        self,
        outcome: ScanOptions<TokenView, Seq<char>>,
        line: int,
    ) -> Scanned {
        match outcome {
            ScanOptions::Token(t) => Scanned { tokens: self.tokens.push(t), errors: self.errors },
            ScanOptions::Error(e) => Scanned {
                tokens: self.tokens,
                errors: self.errors.push((line, e)),
            },
            ScanOptions::Skip => self,
        }
    }

    /// This report followed by `other`.
    pub open spec fn concat(self, other: Scanned) -> Scanned {
        Scanned { tokens: self.tokens + other.tokens, errors: self.errors + other.errors }
    }
}

/// The report of the one lexeme of `src` that begins at `pos`. A diagnostic
/// carries the line that the cursor is on once the lexeme is consumed.
pub open spec fn scan_one(src: Seq<char>, pos: int) -> Scanned {
    Scanned::empty().record(lex_at(src, pos).outcome, line_at(src, lex_at(src, pos).next))
}

/// The report of scanning `src` from `pos` to its end, one lexeme after the other.
pub open spec fn scan_from(src: Seq<char>, pos: int) -> Scanned
    decreases src.len() - pos,
    via scan_from_decreases
{
    if 0 <= pos < src.len() {
        scan_one(src, pos).concat(scan_from(src, lex_at(src, pos).next))
    } else {
        Scanned::empty()
    }
}

#[via_fn]
proof fn scan_from_decreases(src: Seq<char>, pos: int) {
    if 0 <= pos < src.len() {
        lemma_lex_at_advances(src, pos);
    }
}

/// Where the text of the last lexeme begins once `src` has been scanned from
/// `pos` to its end, or `start` if nothing was left to scan.
pub open spec fn start_after_scan(src: Seq<char>, pos: int, start: int) -> int
    decreases src.len() - pos,
    via start_after_scan_decreases
{
    if 0 <= pos < src.len() {
        start_after_scan(src, lex_at(src, pos).next, lex_at(src, pos).start)
    } else {
        start
    }
}

#[via_fn]
proof fn start_after_scan_decreases(src: Seq<char>, pos: int, start: int) {
    if 0 <= pos < src.len() {
        lemma_lex_at_advances(src, pos);
    }
}

/// `run_end` returns the end of a run and the run is the longest: every
/// character in it belongs to the class and the character after it, if there
/// is one, does not.
pub proof fn lemma_run_end(src: Seq<char>, from: int, class: CharClass)
    requires
        0 <= from <= src.len(),
    ensures
        from <= run_end(src, from, class) <= src.len(),
        forall|i: int| from <= i < run_end(src, from, class) ==> class.holds(#[trigger] src[i]),
        run_end(src, from, class) < src.len() ==> !class.holds(src[run_end(src, from, class)]),
    decreases src.len() - from,
{
    if from < src.len() && class.holds(src[from]) {
        lemma_run_end(src, from + 1, class);
    }
}

/// Passing a character moves to the next line exactly when the character is a newline.
pub proof fn lemma_line_at_step(src: Seq<char>, pos: int)
    requires
        0 <= pos < src.len(),
    ensures
        src[pos] == '\n' ==> line_at(src, pos + 1) == line_at(src, pos) + 1,
        src[pos] != '\n' ==> line_at(src, pos + 1) == line_at(src, pos),
{
    assert(src.subrange(0, pos + 1).drop_last() =~= src.subrange(0, pos));
}

/// The source begins on line 1.
pub proof fn lemma_line_at_origin(src: Seq<char>)
    ensures
        line_at(src, 0) == 1,
{
    assert(src.subrange(0, 0).len() == 0);
}

/// Lines are counted from 1.
pub proof fn lemma_line_at_positive(src: Seq<char>, pos: int)
    requires
        0 <= pos <= src.len(),
    ensures
        1 <= line_at(src, pos),
    decreases pos,
{
    if 0 < pos {
        lemma_line_at_positive(src, pos - 1);
        lemma_line_at_step(src, pos - 1);
    }
}

/// Line numbers never decrease along the source, and grow by at most one for
/// each character passed.
pub proof fn lemma_line_at_monotonic(src: Seq<char>, from: int, to: int)
    requires
        0 <= from <= to <= src.len(),
    ensures
        1 <= line_at(src, from) <= line_at(src, to) <= line_at(src, from) + (to - from),
    decreases to - from,
{
    if from < to {
        lemma_line_at_monotonic(src, from, to - 1);
        lemma_line_at_step(src, to - 1);
    } else {
        lemma_line_at_positive(src, from);
    }
}

/// A stretch of source without a newline lies on one line.
pub proof fn lemma_line_at_same_line(src: Seq<char>, from: int, to: int)
    requires
        0 <= from <= to <= src.len(),
        forall|i: int| from <= i < to ==> #[trigger] src[i] != '\n',
    ensures
        line_at(src, to) == line_at(src, from),
    decreases to - from,
{
    if from < to {
        lemma_line_at_same_line(src, from, to - 1);
        lemma_line_at_step(src, to - 1);
    }
}

/// Every classification consumes at least one character and none beyond
/// the end of the source; the lexeme's text begins inside what was consumed.
pub proof fn lemma_lex_at_advances(src: Seq<char>, pos: int)
    requires
        0 <= pos < src.len(),
    ensures
        pos < lex_at(src, pos).next <= src.len(),
        pos <= lex_at(src, pos).start <= lex_at(src, pos).next,
{
    lemma_run_end(src, pos, CharClass::Comment);
    lemma_run_end(src, pos, CharClass::Word);
    lemma_run_end(src, pos, CharClass::Digit);
    lemma_run_end(src, pos + 1, CharClass::Quoted);
}

/// Whether some rule of the grammar accepts `c` as the first character of a lexeme.
pub open spec fn is_recognized(c: char) -> bool {
    ||| punctuation(c) is Some
    ||| operator(c) is Some
    ||| c == '/'
    ||| c == '"'
    ||| is_blank(c)
    ||| c == '\n'
    ||| is_letter(c)
    ||| is_digit(c)
}

/// A source that is one punctuation character, the slash included, scans to
/// exactly one token: of that character's type, with the character as its
/// lexeme, on line 1; and to no diagnostic.
pub proof fn lemma_scan_punctuation(c: char)
    requires
        punctuation(c) is Some || c == '/',
    ensures
        scan_from(seq![c], 0) == (Scanned {
            tokens: seq![
                TokenView {
                    token_type: if c == '/' {
                        TokenType::Slash
                    } else {
                        punctuation(c)->0
                    },
                    lexeme: seq![c],
                    line: 1,
                },
            ],
            errors: Seq::empty(),
        }),
{
    let src = seq![c];
    assert(src.subrange(0, 1) =~= src);
    assert(src.subrange(0, 0).len() == 0);
    assert(scan_from(src, 1) == Scanned::empty());
    assert(scan_from(src, 0).tokens =~= scan_one(src, 0).tokens);
    assert(scan_from(src, 0).errors =~= Seq::empty());
}

/// A character that no rule accepts is consumed alone. It yields no token
/// and one diagnostic, recorded with the character's line, and the scan goes
/// on with the next character.
pub proof fn lemma_scan_unrecognized(src: Seq<char>, pos: int)
    requires
        0 <= pos < src.len(),
        !is_recognized(src[pos]),
    ensures
        lex_at(src, pos) == (Lexed {
            outcome: ScanOptions::Error(unrecognized_character()),
            start: pos,
            next: pos + 1,
        }),
        scan_from(src, pos).tokens == scan_from(src, pos + 1).tokens,
        scan_from(src, pos).errors == seq![(line_at(src, pos), unrecognized_character())]
            + scan_from(src, pos + 1).errors,
{
    lemma_line_at_step(src, pos);
    assert(scan_from(src, pos).tokens =~= scan_from(src, pos + 1).tokens);
    assert(scan_from(src, pos).errors =~= seq![(line_at(src, pos), unrecognized_character())]
        + scan_from(src, pos + 1).errors);
}

/// The sixteen reserved words are distinct entries of the keyword table:
/// each is classified as its own token type.
pub proof fn lemma_keywords()
    ensures
        word_type("and"@) == TokenType::And,
        word_type("class"@) == TokenType::Class,
        word_type("else"@) == TokenType::Else,
        word_type("false"@) == TokenType::False,
        word_type("fun"@) == TokenType::Fun,
        word_type("for"@) == TokenType::For,
        word_type("if"@) == TokenType::If,
        word_type("nil"@) == TokenType::Nil,
        word_type("or"@) == TokenType::Or,
        word_type("print"@) == TokenType::Print,
        word_type("return"@) == TokenType::Return,
        word_type("super"@) == TokenType::Super,
        word_type("this"@) == TokenType::This,
        word_type("true"@) == TokenType::True,
        word_type("var"@) == TokenType::Var,
        word_type("while"@) == TokenType::While,
{
    reveal_strlit("and");
    reveal_strlit("class");
    reveal_strlit("else");
    reveal_strlit("false");
    reveal_strlit("fun");
    reveal_strlit("for");
    reveal_strlit("if");
    reveal_strlit("nil");
    reveal_strlit("or");
    reveal_strlit("print");
    reveal_strlit("return");
    reveal_strlit("super");
    reveal_strlit("this");
    reveal_strlit("true");
    reveal_strlit("var");
    reveal_strlit("while");
    // No two of the words begin with the same two characters.
    assert("and"@[0] == 'a' && "and"@[1] == 'n');
    assert("class"@[0] == 'c' && "class"@[1] == 'l');
    assert("else"@[0] == 'e' && "else"@[1] == 'l');
    assert("false"@[0] == 'f' && "false"@[1] == 'a');
    assert("fun"@[0] == 'f' && "fun"@[1] == 'u');
    assert("for"@[0] == 'f' && "for"@[1] == 'o');
    assert("if"@[0] == 'i' && "if"@[1] == 'f');
    assert("nil"@[0] == 'n' && "nil"@[1] == 'i');
    assert("or"@[0] == 'o' && "or"@[1] == 'r');
    assert("print"@[0] == 'p' && "print"@[1] == 'r');
    assert("return"@[0] == 'r' && "return"@[1] == 'e');
    assert("super"@[0] == 's' && "super"@[1] == 'u');
    assert("this"@[0] == 't' && "this"@[1] == 'h');
    assert("true"@[0] == 't' && "true"@[1] == 'r');
    assert("var"@[0] == 'v' && "var"@[1] == 'a');
    assert("while"@[0] == 'w' && "while"@[1] == 'h');
}

} // verus!
