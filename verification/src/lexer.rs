use vstd::prelude::*;

use crate::chars::{is_alpha, is_digit, is_digit_char, is_white, is_whitespace_char,
    char_is_alphabetic};
use crate::strutil::{char_string, push_char, str_to_chars};
use crate::token::{Token, TokenM, TokenType};

verus! {

/// The character a scan cursor sees at position `p`: the input character
/// there, or the null sentinel once the cursor has moved past the end.
pub open spec fn char_at(input: Seq<char>, p: int) -> char {
    if 0 <= p < input.len() {
        input[p]
    } else {
        '\0'
    }
}

/// A character that may continue an identifier: an alphabetic character or an
/// underscore. Digits do not extend an identifier after its first character.
pub open spec fn ident_char(c: char) -> bool {
    is_alpha(c) || c == '_'
}

// ---------------------------------------------------------------------------
// The scan, mathematically
// ---------------------------------------------------------------------------
/// The cursor after skipping whitespace, starting from cursor `rp` (the
/// character under the cursor is `char_at(input, rp - 1)`).
pub open spec fn skip_ws(input: Seq<char>, rp: int) -> int
    decreases input.len() - rp + 1,
{
    if is_white(char_at(input, rp - 1)) {
        skip_ws(input, rp + 1)
    } else {
        rp
    }
}

/// The cursor after a maximal run of identifier characters, and the run
/// itself.
pub open spec fn scan_ident(input: Seq<char>, rp: int) -> (int, Seq<char>)
    decreases input.len() - rp + 1,
{
    if ident_char(char_at(input, rp - 1)) {
        let (rp2, rest) = scan_ident(input, rp + 1);
        (rp2, seq![char_at(input, rp - 1)] + rest)
    } else {
        (rp, Seq::empty())
    }
}

/// The cursor after a maximal run of decimal digits, and the run itself.
pub open spec fn scan_digits(input: Seq<char>, rp: int) -> (int, Seq<char>)
    decreases input.len() - rp + 1,
{
    if is_digit(char_at(input, rp - 1)) {
        let (rp2, rest) = scan_digits(input, rp + 1);
        (rp2, seq![char_at(input, rp - 1)] + rest)
    } else {
        (rp, Seq::empty())
    }
}

/// The rest of a string literal, scanned from just after the opening quote:
/// the cursor after the scan, the characters gathered (closing quote
/// included on success), and whether the closing quote was found before the
/// end of input or a newline.
pub open spec fn scan_string_rest(input: Seq<char>, rp: int) -> (int, Seq<char>, bool)
    decreases input.len() - rp + 1,
{
    let c = char_at(input, rp - 1);
    if c == '"' {
        (rp + 1, seq![c], true)
    } else if c == '\0' || c == '\n' {
        (rp, Seq::empty(), false)
    } else {
        let (rp2, rest, ok) = scan_string_rest(input, rp + 1);
        (rp2, seq![c] + rest, ok)
    }
}

/// The keyword kind a name denotes, or `Identifier` if it is none of the
/// keywords.
pub open spec fn keyword_type(name: Seq<char>) -> TokenType {
    if name == "let"@ {
        TokenType::Let
    } else if name == "fn"@ {
        TokenType::Fn
    } else if name == "true"@ {
        TokenType::True
    } else if name == "false"@ {
        TokenType::False
    } else if name == "if"@ {
        TokenType::If
    } else if name == "else"@ {
        TokenType::Else
    } else if name == "return"@ {
        TokenType::Return
    } else {
        TokenType::Identifier
    }
}

/// The token produced with the cursor standing on the non-whitespace
/// character `c = char_at(input, rp - 1)`, and the cursor after it.
pub open spec fn dispatch(input: Seq<char>, rp: int) -> (int, TokenM) {
    let c = char_at(input, rp - 1);
    let p = char_at(input, rp);
    if c == '+' {
        if p == '+' {
            (rp + 2, TokenM { ttype: TokenType::Increment, literal: seq!['+', '+'] })
        } else {
            (rp + 1, TokenM { ttype: TokenType::Plus, literal: seq![c] })
        }
    } else if c == '-' {
        if p == '-' {
            (rp + 2, TokenM { ttype: TokenType::Decrement, literal: seq!['-', '-'] })
        } else {
            (rp + 1, TokenM { ttype: TokenType::Minus, literal: seq![c] })
        }
    } else if c == '=' {
        if p == '=' {
            (rp + 2, TokenM { ttype: TokenType::Equal, literal: seq!['=', '='] })
        } else {
            (rp + 1, TokenM { ttype: TokenType::Assign, literal: seq![c] })
        }
    } else if c == '!' {
        if p == '=' {
            (rp + 2, TokenM { ttype: TokenType::NotEqual, literal: seq!['!', '='] })
        } else {
            (rp + 1, TokenM { ttype: TokenType::Bang, literal: seq![c] })
        }
    } else if c == '<' {
        if p == '=' {
            (rp + 2, TokenM { ttype: TokenType::LessThanOrEqual, literal: seq!['<', '='] })
        } else {
            (rp + 1, TokenM { ttype: TokenType::LessThan, literal: seq![c] })
        }
    } else if c == '>' {
        if p == '=' {
            (rp + 2, TokenM { ttype: TokenType::GreaterThanOrEqual, literal: seq!['>', '='] })
        } else {
            (rp + 1, TokenM { ttype: TokenType::GreaterThan, literal: seq![c] })
        }
    } else if c == '*' {
        (rp + 1, TokenM { ttype: TokenType::Asterisk, literal: seq![c] })
    } else if c == '/' {
        (rp + 1, TokenM { ttype: TokenType::Slash, literal: seq![c] })
    } else if c == '?' {
        (rp + 1, TokenM { ttype: TokenType::Question, literal: seq![c] })
    } else if c == '%' {
        (rp + 1, TokenM { ttype: TokenType::Percent, literal: seq![c] })
    } else if c == ',' {
        (rp + 1, TokenM { ttype: TokenType::Comma, literal: seq![c] })
    } else if c == ';' {
        (rp + 1, TokenM { ttype: TokenType::Semicolon, literal: seq![c] })
    } else if c == ':' {
        (rp + 1, TokenM { ttype: TokenType::Colon, literal: seq![c] })
    } else if c == '(' {
        (rp + 1, TokenM { ttype: TokenType::LeftParen, literal: seq![c] })
    } else if c == ')' {
        (rp + 1, TokenM { ttype: TokenType::RightParen, literal: seq![c] })
    } else if c == '[' {
        (rp + 1, TokenM { ttype: TokenType::LeftSquareBracket, literal: seq![c] })
    } else if c == ']' {
        (rp + 1, TokenM { ttype: TokenType::RightSquareBracket, literal: seq![c] })
    } else if c == '{' {
        (rp + 1, TokenM { ttype: TokenType::LeftCurlyBracket, literal: seq![c] })
    } else if c == '}' {
        (rp + 1, TokenM { ttype: TokenType::RightCurlyBracket, literal: seq![c] })
    } else if c == '\0' {
        (rp + 1, TokenM { ttype: TokenType::Eof, literal: seq![c] })
    } else if ident_char(c) {
        let (rp2, name) = scan_ident(input, rp);
        (rp2, TokenM { ttype: keyword_type(name), literal: name })
    } else if '0' <= c && c <= '9' {
        let (rp2, num) = scan_digits(input, rp);
        (rp2, TokenM { ttype: TokenType::Integer, literal: num })
    } else if c == '"' {
        let (rp2, rest, ok) = scan_string_rest(input, rp + 1);
        (
            rp2,
            TokenM {
                ttype: if ok {
                    TokenType::String
                } else {
                    TokenType::Illegal
                },
                literal: seq![c] + rest,
            },
        )
    } else {
        (rp + 1, TokenM { ttype: TokenType::Illegal, literal: seq![c] })
    }
}

/// One step of the scan from cursor `rp`: skip whitespace, then either report
/// that the sequence is over (the cursor has moved past the null sentinel) or
/// produce the next token and the cursor after it.
pub open spec fn spec_next(input: Seq<char>, rp: int) -> (int, Option<TokenM>) {
    let rp1 = skip_ws(input, rp);
    if rp1 > input.len() + 1 {
        (rp1, None)
    } else {
        let (rp2, t) = dispatch(input, rp1);
        (rp2, Some(t))
    }
}

/// The whole token sequence a scan yields from cursor `rp`.
pub open spec fn spec_tokens(input: Seq<char>, rp: int) -> Seq<TokenM>
    decreases input.len() + 2 - rp,
    when 1 <= rp <= input.len() + 2
    via spec_tokens_decreases
{
    let (rp2, t) = spec_next(input, rp);
    match t {
        None => Seq::empty(),
        Some(tm) => seq![tm] + spec_tokens(input, rp2),
    }
}

#[via_fn]
proof fn spec_tokens_decreases(input: Seq<char>, rp: int) {
    lemma_spec_next_range(input, rp);
}

/// The token sequence of a source text: what a fresh scan of it yields.
pub open spec fn tokens_of(input: Seq<char>) -> Seq<TokenM> {
    spec_tokens(input, 1)
}

/// Law: tokenizing is deterministic. The token sequence is a function of the
/// source text alone, so scanning equal inputs, or the same input twice,
/// yields identical token sequences.
pub proof fn lemma_tokenize_deterministic(input1: Seq<char>, input2: Seq<char>)
    requires
        input1 == input2,
    ensures
        tokens_of(input1) == tokens_of(input2),
{
}

// ---------------------------------------------------------------------------
// Range facts about the scan
// ---------------------------------------------------------------------------
proof fn lemma_skip_ws_range(input: Seq<char>, rp: int)
    requires
        1 <= rp,
    ensures
        rp <= skip_ws(input, rp),
        rp <= input.len() + 1 ==> skip_ws(input, rp) <= input.len() + 1,
        rp > input.len() + 1 ==> skip_ws(input, rp) == rp,
        !is_white(char_at(input, skip_ws(input, rp) - 1)),
    decreases input.len() - rp + 1,
{
    if is_white(char_at(input, rp - 1)) {
        lemma_skip_ws_range(input, rp + 1);
    }
}

proof fn lemma_scan_ident_range(input: Seq<char>, rp: int)
    requires
        1 <= rp,
    ensures
        rp <= scan_ident(input, rp).0,
        rp <= input.len() + 1 ==> scan_ident(input, rp).0 <= input.len() + 1,
    decreases input.len() - rp + 1,
{
    if ident_char(char_at(input, rp - 1)) {
        lemma_scan_ident_range(input, rp + 1);
    }
}

proof fn lemma_scan_digits_range(input: Seq<char>, rp: int)
    requires
        1 <= rp,
    ensures
        rp <= scan_digits(input, rp).0,
        rp <= input.len() + 1 ==> scan_digits(input, rp).0 <= input.len() + 1,
    decreases input.len() - rp + 1,
{
    if is_digit(char_at(input, rp - 1)) {
        lemma_scan_digits_range(input, rp + 1);
    }
}

proof fn lemma_scan_string_range(input: Seq<char>, rp: int)
    requires
        1 <= rp,
    ensures
        rp <= scan_string_rest(input, rp).0,
        rp <= input.len() + 1 ==> scan_string_rest(input, rp).0 <= input.len() + 1,
    decreases input.len() - rp + 1,
{
    let c = char_at(input, rp - 1);
    if c == '"' {
    } else if c == '\0' || c == '\n' {
    } else {
        lemma_scan_string_range(input, rp + 1);
    }
}

/// What one scan step does to the cursor: it never moves backwards; it stands
/// still exactly when the sequence is over; and after any token but `Eof` the
/// scan is not yet past the sentinel.
pub proof fn lemma_spec_next_range(input: Seq<char>, rp: int)
    requires
        1 <= rp <= input.len() + 2,
    ensures
        ({
            let (rp2, t) = spec_next(input, rp);
            &&& rp <= rp2 <= input.len() + 2
            &&& (t is None <==> rp > input.len() + 1)
            &&& (t is None ==> rp2 == rp)
            &&& (t is Some ==> rp2 > rp)
            &&& (match t {
                Some(tm) => tm.ttype != TokenType::Eof ==> rp2 <= input.len() + 1,
                None => true,
            })
        }),
{
    lemma_skip_ws_range(input, rp);
    let rp1 = skip_ws(input, rp);
    if rp1 <= input.len() + 1 {
        let c = char_at(input, rp1 - 1);
        if ident_char(c) {
            lemma_scan_ident_range(input, rp1 + 1);
        } else if '0' <= c && c <= '9' {
            lemma_scan_digits_range(input, rp1 + 1);
        } else if c == '"' {
            lemma_scan_string_range(input, rp1 + 1);
        }
    }
}

// ---------------------------------------------------------------------------
// The scanner
// ---------------------------------------------------------------------------
/// A single-pass scanner over a source text: a cursor into the characters,
/// one character of lookahead, and no other state.
pub struct Lexer {
    input: Vec<char>,
    position: usize,
    read_position: usize,
    ch: char,
}

/// The mathematical image of a scanner: the input characters, the cursor, and
/// the character under it.
pub struct LexerM {
    pub input: Seq<char>,
    pub position: int,
    pub read_position: int,
    pub ch: char,
}

impl View for Lexer {
    type V = LexerM;

    closed spec fn view(&self) -> LexerM {
        LexerM {
            input: self.input@,
            position: self.position as int,
            read_position: self.read_position as int,
            ch: self.ch,
        }
    }
}

impl LexerM {
    /// A scanner is well formed when the cursor is in range, the position
    /// trails it by one, and the character under the cursor is the one the
    /// input holds there (the null sentinel past the end).
    pub open spec fn wf(self) -> bool {
        &&& 1 <= self.read_position <= self.input.len() + 2
        &&& self.position == self.read_position - 1
        &&& self.ch == char_at(self.input, self.position)
        &&& self.input.len() + 2 <= usize::MAX
    }

    /// The scan is exhausted once the cursor has moved past the sentinel;
    /// from then on the scanner produces nothing.
    pub open spec fn exhausted(self) -> bool {
        self.read_position > self.input.len() + 1
    }
}

impl Lexer {
    /// Makes a scanner over `input`, with the cursor on the first character.
    pub fn new(input: String) -> (r: Lexer)
        ensures
            r@.wf(),
            r@.input == input@,
            r@.read_position == 1,
    {
        let chars = str_to_chars(input.as_str());
        let mut l = Lexer { input: chars, position: 0, read_position: 0, ch: '\0' };
        l.read_char();
        l
    }

    /// Moves the cursor one character forward.
    fn read_char(&mut self)
        requires
            old(self)@.input.len() + 2 <= usize::MAX,
            old(self)@.read_position <= old(self)@.input.len() + 1,
            old(self)@.read_position >= 0,
        ensures
            final(self)@.input == old(self)@.input,
            final(self)@.read_position == old(self)@.read_position + 1,
            final(self)@.position == old(self)@.read_position,
            final(self)@.ch == char_at(final(self)@.input, final(self)@.position),
    {
        if self.read_position >= self.input.len() {
            self.ch = '\0';
        } else {
            self.ch = self.input[self.read_position];
        }
        self.position = self.read_position;
        self.read_position = self.read_position + 1;
    }

    /// The character one past the cursor, without consuming anything.
    fn peek(&self) -> (r: char)
        requires
            self@.wf(),
        ensures
            r == char_at(self@.input, self@.read_position),
    {
        if self.read_position >= self.input.len() {
            return '\0';
        }
        self.input[self.read_position]
    }

    /// Produces the next token, or nothing once the scan is exhausted. One
    /// step of the lazy, finite, non-restartable token sequence: exactly the
    /// step that `spec_next` takes from the old cursor.
    #[verifier::rlimit(100)]
    pub fn next(&mut self) -> (r: Option<Token>)
        requires
            old(self)@.wf(),
        ensures
            final(self)@.wf(),
            final(self)@.input == old(self)@.input,
            final(self)@.read_position == spec_next(old(self)@.input, old(self)@.read_position).0,
            (match (r, spec_next(old(self)@.input, old(self)@.read_position).1) {
                (Some(tok), Some(tm)) => tok@ == tm,
                (None, None) => true,
                _ => false,
            }),
            r is None <==> old(self)@.exhausted(),
            r is None ==> final(self)@ == old(self)@,
            r is Some ==> final(self)@.read_position > old(self)@.read_position,
            (match r {
                Some(tok) => tok.ttype != TokenType::Eof ==> !final(self)@.exhausted(),
                None => true,
            }),
    {
        proof {
            lemma_spec_next_range(old(self)@.input, old(self)@.read_position);
        }
        let ghost rp0 = self@.read_position;

        // Skip whitespace.
        while is_whitespace_char(self.ch)
            invariant
                self@.wf(),
                self@.input == old(self)@.input,
                1 <= rp0 <= self@.read_position,
                self@.read_position <= self@.input.len() + 1 || self@.read_position == rp0,
                skip_ws(self@.input, rp0) == skip_ws(self@.input, self@.read_position),
            decreases self@.input.len() - self@.read_position + 1,
        {
            proof {
                assert(char_at(self@.input, self@.read_position - 1) == self@.ch);
            }
            self.read_char();
        }
        proof {
            assert(char_at(self@.input, self@.read_position - 1) == self@.ch);
            assert(skip_ws(self@.input, self@.read_position) == self@.read_position);
        }

        // Past the sentinel: the sequence is over.
        if self.read_position > self.input.len() + 1 {
            proof {
                assert(self@.read_position == rp0);
                assert(self@ == old(self)@);
            }
            return None;
        }

        let c = self.ch;
        let ghost rp1 = self@.read_position;

        // Identifiers and keywords begin on an alphabetic character or an
        // underscore.
        if char_is_alphabetic(c) || c == '_' {
            let mut ident = String::new();
            while char_is_alphabetic(self.ch) || self.ch == '_'
                invariant
                    self@.wf(),
                    self@.input == old(self)@.input,
                    1 <= rp1 <= self@.read_position <= self@.input.len() + 1,
                    scan_ident(self@.input, rp1).0 == scan_ident(
                        self@.input,
                        self@.read_position,
                    ).0,
                    scan_ident(self@.input, rp1).1 == ident@ + scan_ident(
                        self@.input,
                        self@.read_position,
                    ).1,
                decreases self@.input.len() - self@.read_position + 1,
            {
                proof {
                    assert(char_at(self@.input, self@.read_position - 1) == self@.ch);
                    assert(ident_char(self@.ch));
                }
                let ghost old_ident = ident@;
                let ghost rp_here = self@.read_position;
                push_char(&mut ident, self.ch);
                self.read_char();
                proof {
                    assert(scan_ident(self@.input, rp_here).1 == seq![
                        char_at(self@.input, rp_here - 1),
                    ] + scan_ident(self@.input, rp_here + 1).1);
                    assert(old_ident + scan_ident(self@.input, rp_here).1 =~= ident@ + scan_ident(
                        self@.input,
                        self@.read_position,
                    ).1);
                }
            }
            proof {
                assert(char_at(self@.input, self@.read_position - 1) == self@.ch);
                assert(!ident_char(self@.ch));
                assert(scan_ident(self@.input, self@.read_position).1 =~= Seq::<char>::empty());
                assert(scan_ident(self@.input, rp1).1 =~= ident@);
            }
            let kw_let = String::from_str("let");
            let kw_fn = String::from_str("fn");
            let kw_true = String::from_str("true");
            let kw_false = String::from_str("false");
            let kw_if = String::from_str("if");
            let kw_else = String::from_str("else");
            let kw_return = String::from_str("return");
            let token = if ident == kw_let {
                Token::new(TokenType::Let, ident)
            } else if ident == kw_fn {
                Token::new(TokenType::Fn, ident)
            } else if ident == kw_true {
                Token::new(TokenType::True, ident)
            } else if ident == kw_false {
                Token::new(TokenType::False, ident)
            } else if ident == kw_if {
                Token::new(TokenType::If, ident)
            } else if ident == kw_else {
                Token::new(TokenType::Else, ident)
            } else if ident == kw_return {
                Token::new(TokenType::Return, ident)
            } else {
                Token::new(TokenType::Identifier, ident)
            };
            return Some(token);
        }

        // Integers.
        if c >= '0' && c <= '9' {
            let mut number = String::new();
            while is_digit_char(self.ch)
                invariant
                    self@.wf(),
                    self@.input == old(self)@.input,
                    1 <= rp1 <= self@.read_position <= self@.input.len() + 1,
                    scan_digits(self@.input, rp1).0 == scan_digits(
                        self@.input,
                        self@.read_position,
                    ).0,
                    scan_digits(self@.input, rp1).1 == number@ + scan_digits(
                        self@.input,
                        self@.read_position,
                    ).1,
                decreases self@.input.len() - self@.read_position + 1,
            {
                proof {
                    assert(char_at(self@.input, self@.read_position - 1) == self@.ch);
                }
                let ghost old_number = number@;
                let ghost rp_here = self@.read_position;
                push_char(&mut number, self.ch);
                self.read_char();
                proof {
                    assert(scan_digits(self@.input, rp_here).1 == seq![
                        char_at(self@.input, rp_here - 1),
                    ] + scan_digits(self@.input, rp_here + 1).1);
                    assert(old_number + scan_digits(self@.input, rp_here).1 =~= number@
                        + scan_digits(self@.input, self@.read_position).1);
                }
            }
            proof {
                assert(char_at(self@.input, self@.read_position - 1) == self@.ch);
                assert(scan_digits(self@.input, self@.read_position).1 =~= Seq::<char>::empty());
                assert(scan_digits(self@.input, rp1).1 =~= number@);
            }
            return Some(Token::new(TokenType::Integer, number));
        }

        // String literals; the quotes stay in the literal text.
        if c == '"' {
            let mut string = String::new();
            push_char(&mut string, self.ch);
            self.read_char();
            let ghost mark = self@.read_position;
            proof {
                assert(string@ =~= seq!['"']);
            }
            #[verifier::loop_isolation(false)]
            while self.ch != '"'
                invariant
                    self@.wf(),
                    self@.input == old(self)@.input,
                    1 <= mark <= self@.read_position <= self@.input.len() + 1,
                    string@.len() >= 1,
                    string@[0] == '"',
                    scan_string_rest(self@.input, mark).0 == scan_string_rest(
                        self@.input,
                        self@.read_position,
                    ).0,
                    scan_string_rest(self@.input, mark).1 == string@.skip(1) + scan_string_rest(
                        self@.input,
                        self@.read_position,
                    ).1,
                    scan_string_rest(self@.input, mark).2 == scan_string_rest(
                        self@.input,
                        self@.read_position,
                    ).2,
                decreases self@.input.len() - self@.read_position + 1,
            {
                proof {
                    assert(char_at(self@.input, self@.read_position - 1) == self@.ch);
                }
                if self.ch == '\0' || self.ch == '\n' {
                    proof {
                        assert(scan_string_rest(self@.input, self@.read_position).0
                            == self@.read_position);
                        assert(scan_string_rest(self@.input, self@.read_position).1
                            =~= Seq::<char>::empty());
                        assert(scan_string_rest(self@.input, self@.read_position).2 == false);
                        assert(scan_string_rest(self@.input, mark).0 == self@.read_position);
                        assert(scan_string_rest(self@.input, mark).1 =~= string@.skip(1));
                        assert(scan_string_rest(self@.input, mark).2 == false);
                        assert(seq!['"'] + string@.skip(1) =~= string@);
                        assert(seq!['"'] + scan_string_rest(self@.input, mark).1 =~= string@);
                    }
                    return Some(Token::new(TokenType::Illegal, string));
                }
                let ghost old_string = string@;
                let ghost rp_here = self@.read_position;
                push_char(&mut string, self.ch);
                self.read_char();
                proof {
                    assert(scan_string_rest(self@.input, rp_here).1 == seq![
                        char_at(self@.input, rp_here - 1),
                    ] + scan_string_rest(self@.input, rp_here + 1).1);
                    assert(old_string.skip(1) + scan_string_rest(self@.input, rp_here).1
                        =~= string@.skip(1) + scan_string_rest(self@.input, self@.read_position).1);
                }
            }
            proof {
                assert(char_at(self@.input, self@.read_position - 1) == self@.ch);
                assert(scan_string_rest(self@.input, self@.read_position).0
                    == self@.read_position + 1);
                assert(scan_string_rest(self@.input, self@.read_position).1 =~= seq!['"']);
                assert(scan_string_rest(self@.input, self@.read_position).2 == true);
                assert(scan_string_rest(self@.input, mark).0 == self@.read_position + 1);
                assert(scan_string_rest(self@.input, mark).1 =~= string@.skip(1) + seq!['"']);
                assert(scan_string_rest(self@.input, mark).2 == true);
            }
            push_char(&mut string, self.ch);
            self.read_char();
            proof {
                assert(seq!['"'] + (string@.skip(1)) =~= string@);
                assert(seq!['"'] + scan_string_rest(self@.input, mark).1 =~= string@);
            }
            return Some(Token::new(TokenType::String, string));
        }

        // Operators, delimiters, the sentinel, and anything unrecognized.
        let token = if c == '+' {
            if self.peek() == '+' {
                self.read_char();
                let t = Token::new(TokenType::Increment, String::from_str("++"));
                proof {
                    reveal_strlit("++");
                    assert(("++")@ =~= seq!['+', '+']);
                }
                t
            } else {
                Token::new(TokenType::Plus, char_string(self.ch))
            }
        } else if c == '-' {
            if self.peek() == '-' {
                self.read_char();
                let t = Token::new(TokenType::Decrement, String::from_str("--"));
                proof {
                    reveal_strlit("--");
                    assert(("--")@ =~= seq!['-', '-']);
                }
                t
            } else {
                Token::new(TokenType::Minus, char_string(self.ch))
            }
        } else if c == '=' {
            if self.peek() == '=' {
                self.read_char();
                let t = Token::new(TokenType::Equal, String::from_str("=="));
                proof {
                    reveal_strlit("==");
                    assert(("==")@ =~= seq!['=', '=']);
                }
                t
            } else {
                Token::new(TokenType::Assign, char_string(self.ch))
            }
        } else if c == '!' {
            if self.peek() == '=' {
                self.read_char();
                let t = Token::new(TokenType::NotEqual, String::from_str("!="));
                proof {
                    reveal_strlit("!=");
                    assert(("!=")@ =~= seq!['!', '=']);
                }
                t
            } else {
                Token::new(TokenType::Bang, char_string(self.ch))
            }
        } else if c == '<' {
            if self.peek() == '=' {
                self.read_char();
                let t = Token::new(TokenType::LessThanOrEqual, String::from_str("<="));
                proof {
                    reveal_strlit("<=");
                    assert(("<=")@ =~= seq!['<', '=']);
                }
                t
            } else {
                Token::new(TokenType::LessThan, char_string(self.ch))
            }
        } else if c == '>' {
            if self.peek() == '=' {
                self.read_char();
                let t = Token::new(TokenType::GreaterThanOrEqual, String::from_str(">="));
                proof {
                    reveal_strlit(">=");
                    assert((">=")@ =~= seq!['>', '=']);
                }
                t
            } else {
                Token::new(TokenType::GreaterThan, char_string(self.ch))
            }
        } else if c == '*' {
            Token::new(TokenType::Asterisk, char_string(self.ch))
        } else if c == '/' {
            Token::new(TokenType::Slash, char_string(self.ch))
        } else if c == '?' {
            Token::new(TokenType::Question, char_string(self.ch))
        } else if c == '%' {
            Token::new(TokenType::Percent, char_string(self.ch))
        } else if c == ',' {
            Token::new(TokenType::Comma, char_string(self.ch))
        } else if c == ';' {
            Token::new(TokenType::Semicolon, char_string(self.ch))
        } else if c == ':' {
            Token::new(TokenType::Colon, char_string(self.ch))
        } else if c == '(' {
            Token::new(TokenType::LeftParen, char_string(self.ch))
        } else if c == ')' {
            Token::new(TokenType::RightParen, char_string(self.ch))
        } else if c == '[' {
            Token::new(TokenType::LeftSquareBracket, char_string(self.ch))
        } else if c == ']' {
            Token::new(TokenType::RightSquareBracket, char_string(self.ch))
        } else if c == '{' {
            Token::new(TokenType::LeftCurlyBracket, char_string(self.ch))
        } else if c == '}' {
            Token::new(TokenType::RightCurlyBracket, char_string(self.ch))
        } else if c == '\0' {
            Token::new(TokenType::Eof, char_string(self.ch))
        } else {
            Token::new(TokenType::Illegal, char_string(self.ch))
        };
        self.read_char();
        Some(token)
    }
}

} // verus!
