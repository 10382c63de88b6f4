//! The scanner: a cursor that walks a buffer of characters once, from left
//! to right, and classifies one lexeme at a time.

use vstd::prelude::*;
use vstd::hash_map::StringHashMap;
use crate::grammar::{
    keyword_map, lemma_lex_at_advances, lemma_line_at_monotonic, lemma_line_at_origin,
    lemma_line_at_same_line, lemma_line_at_step, lemma_run_end, lex_at, lex_number, lex_operator,
    lex_single, lex_slash, lex_string, lex_word, line_at, run_end, scan_from,
    start_after_scan, CharClass, Lexed, Scanned,
};
use crate::text::{is_digit, is_letter, to_chars, to_text};
use crate::types::{diagnostic_views, token_views, ScanOptions, Token, TokenType};

verus! {

/// Builds the keyword table: the reserved words, each with its token type.
fn keywords() -> (table: StringHashMap<TokenType>)
    ensures
        table@ == keyword_map(),
{
    let mut keymap: StringHashMap<TokenType> = StringHashMap::new();
    keymap.insert("and".to_owned(), TokenType::And);
    keymap.insert("class".to_owned(), TokenType::Class);
    keymap.insert("else".to_owned(), TokenType::Else);
    keymap.insert("false".to_owned(), TokenType::False);
    keymap.insert("fun".to_owned(), TokenType::Fun);
    keymap.insert("for".to_owned(), TokenType::For);
    keymap.insert("if".to_owned(), TokenType::If);
    keymap.insert("nil".to_owned(), TokenType::Nil);
    keymap.insert("or".to_owned(), TokenType::Or);
    keymap.insert("print".to_owned(), TokenType::Print);
    keymap.insert("return".to_owned(), TokenType::Return);
    keymap.insert("super".to_owned(), TokenType::Super);
    keymap.insert("this".to_owned(), TokenType::This);
    keymap.insert("true".to_owned(), TokenType::True);
    keymap.insert("var".to_owned(), TokenType::Var);
    keymap.insert("while".to_owned(), TokenType::While);
    keymap
}

/// A scanner over one source buffer, which it owns.
pub struct Scanner {
    start: usize,
    current: usize,
    line: usize,
    content: Vec<char>,
    keywords: StringHashMap<TokenType>,
}

/// The mathematical value of a [`Scanner`].
pub struct ScannerView {
    /// The source, one character per position.
    pub content: Seq<char>,
    /// Where the text of the lexeme last classified begins.
    pub start: int,
    /// The cursor: the position of the first character not yet consumed.
    pub current: int,
    /// The line counter.
    pub line: int,
}

impl ScannerView {
    /// The cursors are ordered and inside the buffer, and the line counter
    /// is the line of the cursor.
    pub open spec fn inv(self) -> bool {
        &&& 0 <= self.start <= self.current <= self.content.len()
        &&& self.line == line_at(self.content, self.current)
    }

    /// The character after the one at the cursor, if there is one.
    pub open spec fn lookahead(self) -> Option<char> {
        if self.current + 1 < self.content.len() {
            Some(self.content[self.current + 1])
        } else {
            None
        }
    }

    /// This state with the cursor one character further.
    pub open spec fn advanced(self) -> ScannerView {
        ScannerView { current: self.current + 1, ..self }
    }

    /// The state after the lexeme `lexed` has been consumed.
    pub open spec fn after(self, lexed: Lexed) -> ScannerView {
        ScannerView {
            content: self.content,
            start: lexed.start,
            current: lexed.next,
            line: line_at(self.content, lexed.next),
        }
    }
}

impl View for Scanner {
    type V = ScannerView;

    closed spec fn view(&self) -> ScannerView {
        ScannerView {
            content: self.content@,
            start: self.start as int,
            current: self.current as int,
            line: self.line as int,
        }
    }
}

impl Scanner {
    /// The scanner holds the keyword table of the grammar.
    pub closed spec fn keywords_loaded(&self) -> bool {
        self.keywords@ == keyword_map()
    }

    /// Well-formedness: what every public function needs and keeps.
    pub open spec fn wf(&self) -> bool {
        &&& self@.inv()
        &&& self@.content.len() < usize::MAX
        &&& self.keywords_loaded()
    }

    /// A scanner at the beginning of `s`, on line 1.
    ///
    /// The source must be shorter than `usize::MAX` characters, so that the
    /// line counter cannot overflow.
    pub fn new(s: String) -> (scanner: Self)
        requires
            s@.len() < usize::MAX,
        ensures
            scanner.wf(),
            scanner@ == (ScannerView { content: s@, start: 0, current: 0, line: 1 }),
    {
        let content = to_chars(s.as_str());
        proof {
            lemma_line_at_origin(content@);
        }
        Scanner { start: 0, current: 0, line: 1, content, keywords: keywords() }
    }

    /// The cursor.
    pub fn current(&self) -> (pos: usize)
        ensures
            pos == self@.current,
    {
        self.current
    }

    /// The line counter.
    pub fn line(&self) -> (line: usize)
        ensures
            line == self@.line,
    {
        self.line
    }

    /// Consumes the character at the cursor.
    fn advance(&mut self)
        requires
            old(self)@.current < old(self)@.content.len(),
        ensures
            final(self)@ == old(self)@.advanced(),
            final(self).keywords_loaded() == old(self).keywords_loaded(),
    {
        assert(self.content.len() == self.content@.len());
        self.current += 1
    }

    /// The text between the start of the lexeme and the cursor.
    fn get_substring(&self) -> (lexeme: String)
        requires
            0 <= self@.start <= self@.current <= self@.content.len(),
        ensures
            lexeme@ == self@.content.subrange(self@.start, self@.current),
    {
        to_text(&self.content, self.start, self.current)
    }

    /// Whether the character after the one at the cursor is `c`.
    fn char_match(&self, c: char) -> (matched: bool)
        requires
            0 <= self@.current < self@.content.len(),
        ensures
            matched == (self@.lookahead() == Some(c)),
    {
        if let Some(c2) = self.peek() {
            return c == c2;
        }
        false
    }

    /// A token of one character: the one at the cursor, which is not a newline.
    fn one_token(&mut self, token: TokenType) -> (outcome: ScanOptions<Token, String>)
        requires
            old(self).wf(),
            old(self)@.start == old(self)@.current < old(self)@.content.len(),
            old(self)@.content[old(self)@.current] != '\n',
        ensures
            final(self).wf(),
            final(self)@ == old(self)@.after(
                lex_single(old(self)@.content, old(self)@.current, token),
            ),
            outcome@ == lex_single(old(self)@.content, old(self)@.current, token).outcome,
    {
        proof {
            lemma_line_at_step(self@.content, self@.current);
        }
        self.advance();
        ScanOptions::Token(Token::new(token, self.get_substring(), self.line))
    }

    /// A token of one or two characters: two if the character after the
    /// cursor is `c`, and then of type `a_token`; else one, of type `b_token`.
    fn two_token(
        &mut self,
        c: char,
        a_token: TokenType,
        b_token: TokenType,
    ) -> (outcome: ScanOptions<Token, String>)
        requires
            old(self).wf(),
            old(self)@.start == old(self)@.current < old(self)@.content.len(),
            old(self)@.content[old(self)@.current] != '\n',
            c != '\n',
        ensures
            final(self).wf(),
            final(self)@ == old(self)@.after(
                lex_operator(old(self)@.content, old(self)@.current, c, a_token, b_token),
            ),
            outcome@ == lex_operator(
                old(self)@.content,
                old(self)@.current,
                c,
                a_token,
                b_token,
            ).outcome,
    {
        proof {
            lemma_line_at_step(self@.content, self@.current);
        }
        match self.char_match(c) {
            true => {
                proof {
                    lemma_line_at_step(self@.content, self@.current + 1);
                }
                self.advance();
                self.advance();
                ScanOptions::Token(Token::new(a_token, self.get_substring(), self.line))
            },
            false => {
                self.advance();
                ScanOptions::Token(Token::new(b_token, self.get_substring(), self.line))
            },
        }
    }

    /// The cursor is at a slash: a comment up to the end of the line if
    /// another slash follows, the slash by itself if not.
    fn maybe_comment(&mut self) -> (outcome: ScanOptions<Token, String>)
        requires
            old(self).wf(),
            old(self)@.start == old(self)@.current < old(self)@.content.len(),
            old(self)@.content[old(self)@.current] == '/',
        ensures
            final(self).wf(),
            final(self)@ == old(self)@.after(lex_slash(old(self)@.content, old(self)@.current)),
            outcome@ == lex_slash(old(self)@.content, old(self)@.current).outcome,
    {
        let ghost src = self@.content;
        let ghost pos: int = self@.current;
        if self.char_match('/') {
            self.advance();
            while !self.is_end() && self.content[self.current] != '\n'
                invariant
                    self@.content == src,
                    self@.start == pos,
                    self@.line == old(self)@.line,
                    self.keywords_loaded(),
                    pos < self@.current <= src.len(),
                    run_end(src, self@.current, CharClass::Comment) == run_end(
                        src,
                        pos,
                        CharClass::Comment,
                    ),
                decreases src.len() - self@.current,
            {
                self.advance();
            }
            proof {
                lemma_run_end(src, pos, CharClass::Comment);
                lemma_line_at_same_line(src, pos, self@.current);
            }
            ScanOptions::Token(Token::new(TokenType::Comment, self.get_substring(), self.line))
        } else {
            proof {
                lemma_line_at_step(src, pos);
            }
            self.advance();
            ScanOptions::Token(Token::new(TokenType::Slash, self.get_substring(), self.line))
        }
    }

    /// The cursor is at a double quote: a string literal up to the closing
    /// quote, or a diagnostic if the input ends first.
    fn capture_string(&mut self) -> (outcome: ScanOptions<Token, String>)
        requires
            old(self).wf(),
            old(self)@.start == old(self)@.current < old(self)@.content.len(),
            old(self)@.content[old(self)@.current] == '"',
        ensures
            final(self).wf(),
            final(self)@ == old(self)@.after(lex_string(old(self)@.content, old(self)@.current)),
            outcome@ == lex_string(old(self)@.content, old(self)@.current).outcome,
    {
        let ghost src = self@.content;
        let ghost pos: int = self@.current;
        proof {
            lemma_line_at_step(src, pos);
        }
        self.advance();
        self.start = self.current;
        while !self.is_end() && self.content[self.current] != '"'
            invariant
                self@.content == src,
                src.len() < usize::MAX,
                self@.start == pos + 1,
                self@.line == line_at(src, self@.current),
                self.keywords_loaded(),
                pos < self@.current <= src.len(),
                run_end(src, self@.current, CharClass::Quoted) == run_end(
                    src,
                    pos + 1,
                    CharClass::Quoted,
                ),
            decreases src.len() - self@.current,
        {
            proof {
                lemma_line_at_step(src, self@.current);
                lemma_line_at_monotonic(src, 0, self@.current);
                lemma_line_at_origin(src);
            }
            if self.content[self.current] == '\n' {
                self.line += 1
            }
            self.advance()
        }
        if self.is_end() {
            return ScanOptions::Error("String didn't terminate before end of file".to_owned());
        }
        let lexeme = self.get_substring();
        proof {
            lemma_line_at_step(src, self@.current);
        }
        self.advance();
        ScanOptions::Token(Token::new(TokenType::String, lexeme, self.line))
    }

    /// The cursor is at a letter or an underscore: a keyword or an identifier.
    fn is_alpha_numeric(&mut self) -> (outcome: ScanOptions<Token, String>)
        requires
            old(self).wf(),
            old(self)@.start == old(self)@.current < old(self)@.content.len(),
            crate::grammar::is_letter(old(self)@.content[old(self)@.current]),
        ensures
            final(self).wf(),
            final(self)@ == old(self)@.after(lex_word(old(self)@.content, old(self)@.current)),
            outcome@ == lex_word(old(self)@.content, old(self)@.current).outcome,
    {
        let ghost src = self@.content;
        let ghost pos: int = self@.current;
        self.advance();
        while !self.is_end() && (is_letter(self.content[self.current]) || is_digit(
            self.content[self.current],
        ))
            invariant
                self@.content == src,
                self@.start == pos,
                self@.line == old(self)@.line,
                self.keywords_loaded(),
                pos < self@.current <= src.len(),
                run_end(src, self@.current, CharClass::Word) == run_end(src, pos, CharClass::Word),
            decreases src.len() - self@.current,
        {
            self.advance();
        }
        proof {
            lemma_run_end(src, pos, CharClass::Word);
            lemma_line_at_same_line(src, pos, self@.current);
        }
        let s = self.get_substring();
        let token_type = match self.keywords.get(s.as_str()) {
            Some(t) => *t,
            None => TokenType::Identifier,
        };
        ScanOptions::Token(Token::new(token_type, s, self.line))
    }

    /// Whether the cursor is at the end of the buffer: nothing is left to consume.
    fn is_end(&self) -> (end: bool)
        ensures
            end == (self@.current >= self@.content.len()),
    {
        self.current >= self.content.len()
    }

    /// The character after the one at the cursor, if there is one.
    fn peek(&self) -> (next: Option<char>)
        requires
            0 <= self@.current < self@.content.len(),
        ensures
            next == self@.lookahead(),
    {
        assert(self.content.len() == self.content@.len());
        if self.current + 1 >= self.content.len() {
            None
        } else {
            Some(self.content[self.current + 1])
        }
    }

    /// Consumes the character at the cursor and reports nothing.
    fn no_token(&mut self) -> (outcome: ScanOptions<Token, String>)
        requires
            old(self)@.current < old(self)@.content.len(),
        ensures
            final(self)@ == old(self)@.advanced(),
            final(self).keywords_loaded() == old(self).keywords_loaded(),
            outcome is Skip,
    {
        self.advance();
        ScanOptions::Skip
    }

    /// The cursor is at a digit: a number.
    fn is_numeric(&mut self) -> (outcome: ScanOptions<Token, String>)
        requires
            old(self).wf(),
            old(self)@.start == old(self)@.current < old(self)@.content.len(),
            crate::grammar::is_digit(old(self)@.content[old(self)@.current]),
        ensures
            final(self).wf(),
            final(self)@ == old(self)@.after(lex_number(old(self)@.content, old(self)@.current)),
            outcome@ == lex_number(old(self)@.content, old(self)@.current).outcome,
    {
        let ghost src = self@.content;
        let ghost pos: int = self@.current;
        self.advance();
        while !self.is_end() && is_digit(self.content[self.current])
            invariant
                self@.content == src,
                self@.start == pos,
                self@.line == old(self)@.line,
                self.keywords_loaded(),
                pos < self@.current <= src.len(),
                run_end(src, self@.current, CharClass::Digit) == run_end(
                    src,
                    pos,
                    CharClass::Digit,
                ),
            decreases src.len() - self@.current,
        {
            self.advance();
        }
        proof {
            lemma_run_end(src, pos, CharClass::Digit);
            lemma_line_at_same_line(src, pos, self@.current);
        }
        ScanOptions::Token(Token::new(TokenType::Number, self.get_substring(), self.line))
    }

    /// Classifies the lexeme at the cursor and consumes it.
    ///
    /// The cursor must point at a character. It moves forward by at least
    /// one character and never past the end of the buffer; the line counter
    /// never decreases.
    pub fn scan_lexeme(&mut self) -> (outcome: ScanOptions<Token, String>)
        requires
            old(self).wf(),
            old(self)@.current < old(self)@.content.len(),
        ensures
            final(self).wf(),
            final(self)@ == old(self)@.after(lex_at(old(self)@.content, old(self)@.current)),
            outcome@ == lex_at(old(self)@.content, old(self)@.current).outcome,
            old(self)@.current < final(self)@.current <= old(self)@.content.len(),
            1 <= old(self)@.line <= final(self)@.line,
    {
        let ghost src = self@.content;
        let ghost pos: int = self@.current;
        proof {
            lemma_lex_at_advances(src, pos);
            lemma_line_at_monotonic(src, pos, lex_at(src, pos).next);
            lemma_line_at_step(src, pos);
        }
        self.start = self.current;
        match self.content[self.current] {
            '{' => self.one_token(TokenType::LeftBrace),
            '}' => self.one_token(TokenType::RightBrace),
            '(' => self.one_token(TokenType::LeftParen),
            ')' => self.one_token(TokenType::RightParen),
            ',' => self.one_token(TokenType::Comma),
            '.' => self.one_token(TokenType::Dot),
            '-' => self.one_token(TokenType::Minus),
            '+' => self.one_token(TokenType::Plus),
            '*' => self.one_token(TokenType::Star),
            ';' => self.one_token(TokenType::Semicolon),
            '!' => self.two_token('=', TokenType::BangEqual, TokenType::Bang),
            '=' => self.two_token('=', TokenType::EqualEqual, TokenType::Equal),
            '<' => self.two_token('=', TokenType::LessEqual, TokenType::Less),
            '>' => self.two_token('=', TokenType::GreaterEqual, TokenType::Greater),
            '/' => self.maybe_comment(),
            '"' => self.capture_string(),
            ' ' => self.no_token(),
            '\r' => self.no_token(),
            '\t' => self.no_token(),
            '\n' => {
                proof {
                    lemma_line_at_monotonic(src, 0, pos);
                    lemma_line_at_origin(src);
                }
                self.line += 1;
                self.no_token()
            },
            'a'..='z' | 'A'..='Z' | '_' => self.is_alpha_numeric(),
            '0'..='9' => self.is_numeric(),
            _ => {
                self.advance();
                ScanOptions::Error("Did not recognize the token".to_owned())
            },
        }
    }

    /// Scans the rest of the buffer: classifies lexeme after lexeme until
    /// the cursor is at the end. Returns the tokens in source order and the
    /// diagnostics in the order in which they arose, each with the line the
    /// scanner was on when it was recorded; a diagnostic does not stop the
    /// scan.
    pub fn scan_file(&mut self) -> (report: (Vec<Token>, Vec<(usize, String)>))
        requires
            old(self).wf(),
        ensures
            final(self).wf(),
            final(self)@.content == old(self)@.content,
            final(self)@.current == old(self)@.content.len(),
            final(self)@.start == start_after_scan(
                old(self)@.content,
                old(self)@.current,
                old(self)@.start,
            ),
            1 <= old(self)@.line <= final(self)@.line,
            token_views(report.0@) == scan_from(old(self)@.content, old(self)@.current).tokens,
            diagnostic_views(report.1@) == scan_from(old(self)@.content, old(self)@.current).errors,
    {
        let mut result: Vec<Token> = Vec::new();
        let mut errors: Vec<(usize, String)> = Vec::new();
        let ghost src = self@.content;
        let ghost first: int = self@.current;
        proof {
            lemma_line_at_monotonic(src, first, first);
        }
        while !self.is_end()
            invariant
                self.wf(),
                self@.content == src,
                first <= self@.current <= src.len(),
                old(self)@.line <= self@.line,
                start_after_scan(src, self@.current, self@.start) == start_after_scan(
                    src,
                    first,
                    old(self)@.start,
                ),
                (Scanned {
                    tokens: token_views(result@),
                    errors: diagnostic_views(errors@),
                }).concat(scan_from(src, self@.current)) == scan_from(src, first),
            decreases src.len() - self@.current,
        {
            let ghost pos: int = self@.current;
            let ghost before = Scanned {
                tokens: token_views(result@),
                errors: diagnostic_views(errors@),
            };
            match self.scan_lexeme() {
                ScanOptions::Token(t) => {
                    result.push(t);
                    assert(token_views(result@) =~= before.tokens.push(t@));
                },
                ScanOptions::Error(e) => {
                    errors.push((self.line, e));
                    assert(diagnostic_views(errors@) =~= before.errors.push((self@.line, e@)));
                },
                ScanOptions::Skip => (),
            }
            proof {
                let rest = scan_from(src, self@.current);
                let now = Scanned {
                    tokens: token_views(result@),
                    errors: diagnostic_views(errors@),
                };
                assert(now.concat(rest).tokens =~= before.concat(scan_from(src, pos)).tokens);
                assert(now.concat(rest).errors =~= before.concat(scan_from(src, pos)).errors);
            }
        }
        (result, errors)
    }
}

} // verus!
