//! The tokenizer: a single left-to-right pass over the characters of one
//! line, with one character of lookahead, producing a flat token sequence.
//!
//! Whitespace (space and carriage return) is consumed and never appears in
//! the output; statement separators (`;` and newline) are preserved as
//! [`Token::StatementEnd`]; [`Token::EndOfInput`] is appended exactly once,
//! as the final element.  `spec_tokenize` is the functional model that
//! [`Lexer::tokenize`] is proved to implement.
use vstd::prelude::*;

verus! {

use crate::numeric::{alpha_char, numeric_char};
use vstd::string::StrSliceExecFns;
use vstd::string::StringExecFns;

/// The ghost mirror of a [`Token`]: lexemes as character sequences.
pub enum TokenV {
    Number(Seq<char>),
    Identifier(Seq<char>),
    Plus,
    Minus,
    Divide,
    Multiply,
    Power,
    StatementEnd,
    LParen,
    RParen,
    Assign,
    Space,
    EndOfInput,
    Unknown(char),
}

/// One token of the source line.  `Number` and `Identifier` carry their raw
/// lexeme text; numeric conversion happens later, in the parser.
#[derive(Debug)]
pub enum Token {
    Number(String),
    Identifier(String),
    Plus,
    Minus,
    Divide,
    Multiply,
    Power,
    StatementEnd,
    LParen,
    RParen,
    Assign,
    Space,
    EndOfInput,
    Unknown(char),
}

impl View for Token {
    type V = TokenV;

    open spec fn view(&self) -> TokenV {
        match self {
            Token::Number(s) => TokenV::Number(s@),
            Token::Identifier(s) => TokenV::Identifier(s@),
            Token::Plus => TokenV::Plus,
            Token::Minus => TokenV::Minus,
            Token::Divide => TokenV::Divide,
            Token::Multiply => TokenV::Multiply,
            Token::Power => TokenV::Power,
            Token::StatementEnd => TokenV::StatementEnd,
            Token::LParen => TokenV::LParen,
            Token::RParen => TokenV::RParen,
            Token::Assign => TokenV::Assign,
            Token::Space => TokenV::Space,
            Token::EndOfInput => TokenV::EndOfInput,
            Token::Unknown(c) => TokenV::Unknown(*c),
        }
    }
}

impl DeepView for Token {
    type V = TokenV;

    open spec fn deep_view(&self) -> TokenV {
        self.view()
    }
}

impl Clone for Token {
    fn clone(&self) -> (r: Self)
        ensures
            r@ == self@,
    {
        match self {
            Token::Number(s) => Token::Number(s.clone()),
            Token::Identifier(s) => Token::Identifier(s.clone()),
            Token::Plus => Token::Plus,
            Token::Minus => Token::Minus,
            Token::Divide => Token::Divide,
            Token::Multiply => Token::Multiply,
            Token::Power => Token::Power,
            Token::StatementEnd => Token::StatementEnd,
            Token::LParen => Token::LParen,
            Token::RParen => Token::RParen,
            Token::Assign => Token::Assign,
            Token::Space => Token::Space,
            Token::EndOfInput => Token::EndOfInput,
            Token::Unknown(c) => Token::Unknown(*c),
        }
    }
}

/// The kind of a token, without its lexeme; two tokens compare as the same
/// kind whatever text they carry.
#[derive(Clone, Copy, PartialEq, Eq, Structural, Debug)]
pub enum TokenKind {
    Number,
    Identifier,
    Plus,
    Minus,
    Divide,
    Multiply,
    Power,
    StatementEnd,
    LParen,
    RParen,
    Assign,
    Space,
    EndOfInput,
    Unknown,
}

/// The kind of a (ghost) token.
pub open spec fn spec_kind(t: TokenV) -> TokenKind {
    match t {
        TokenV::Number(_) => TokenKind::Number,
        TokenV::Identifier(_) => TokenKind::Identifier,
        TokenV::Plus => TokenKind::Plus,
        TokenV::Minus => TokenKind::Minus,
        TokenV::Divide => TokenKind::Divide,
        TokenV::Multiply => TokenKind::Multiply,
        TokenV::Power => TokenKind::Power,
        TokenV::StatementEnd => TokenKind::StatementEnd,
        TokenV::LParen => TokenKind::LParen,
        TokenV::RParen => TokenKind::RParen,
        TokenV::Assign => TokenKind::Assign,
        TokenV::Space => TokenKind::Space,
        TokenV::EndOfInput => TokenKind::EndOfInput,
        TokenV::Unknown(_) => TokenKind::Unknown,
    }
}

/// The printed form of a token, `<Kind>` or `<Kind:lexeme>`.
pub open spec fn spec_token_text(t: TokenV) -> Seq<char> {
    match t {
        TokenV::Number(s) => "<Num:"@ + s + ">"@,
        TokenV::Identifier(s) => "<Ident:"@ + s + ">"@,
        TokenV::Plus => "<Plus>"@,
        TokenV::Minus => "<Minus>"@,
        TokenV::Divide => "<Divide>"@,
        TokenV::Multiply => "<Multiply>"@,
        TokenV::Power => "<Power>"@,
        TokenV::StatementEnd => "<StatementEnd>"@,
        TokenV::LParen => "<LParen>"@,
        TokenV::RParen => "<RParen>"@,
        TokenV::Assign => "<Assign>"@,
        TokenV::Space => "<Space>"@,
        TokenV::EndOfInput => "<EndOfInput>"@,
        TokenV::Unknown(c) => "<Unknown:"@ + seq![c] + ">"@,
    }
}

/// Relies on std's `String::push`: appends one character to the string.
#[verifier::external_body]
fn push_char(s: &mut String, c: char)
    ensures
        final(s)@ == old(s)@.push(c),
{
    s.push(c)
}

impl Token {
    pub fn kind(&self) -> (k: TokenKind)
        ensures
            k == spec_kind(self@),
    {
        match self {
            Token::Number(_) => TokenKind::Number,
            Token::Identifier(_) => TokenKind::Identifier,
            Token::Plus => TokenKind::Plus,
            Token::Minus => TokenKind::Minus,
            Token::Divide => TokenKind::Divide,
            Token::Multiply => TokenKind::Multiply,
            Token::Power => TokenKind::Power,
            Token::StatementEnd => TokenKind::StatementEnd,
            Token::LParen => TokenKind::LParen,
            Token::RParen => TokenKind::RParen,
            Token::Assign => TokenKind::Assign,
            Token::Space => TokenKind::Space,
            Token::EndOfInput => TokenKind::EndOfInput,
            Token::Unknown(_) => TokenKind::Unknown,
        }
    }

    /// Whether this token has the same kind as `token`.
    pub fn is(&self, token: Token) -> (r: bool)
        ensures
            r == (spec_kind(self@) == spec_kind(token@)),
    {
        self.kind() == token.kind()
    }

    /// Whether this token has the same kind as some token of `tokens`.
    pub fn is_in(&self, tokens: &Vec<Token>) -> (r: bool)
        ensures
            r == exists|k: int|
                0 <= k < tokens@.len() && spec_kind(self@) == spec_kind(#[trigger] tokens@[k]@),
    {
        let mut i: usize = 0;
        while i < tokens.len()
            invariant
                i <= tokens.len(),
                forall|k: int| 0 <= k < i ==> spec_kind(self@) != spec_kind(#[trigger] tokens@[k]@),
            decreases tokens.len() - i,
        {
            if self.is(tokens[i].clone()) {
                return true;
            }
            i = i + 1;
        }
        false
    }

    /// Whether this token's kind differs from that of `token`.
    pub fn is_not(&self, token: Token) -> (r: bool)
        ensures
            r == (spec_kind(self@) != spec_kind(token@)),
    {
        !self.is(token)
    }

    /// The printed form of the token, `<Kind>` or `<Kind:lexeme>`.
    pub fn to_string(&self) -> (r: String)
        ensures
            r@ == spec_token_text(self@),
    {
        match self {
            Token::Number(v) => {
                let mut s = String::from_str("<Num:");
                s.append(v.as_str());
                s.append(">");
                s
            },
            Token::Identifier(v) => {
                let mut s = String::from_str("<Ident:");
                s.append(v.as_str());
                s.append(">");
                s
            },
            Token::Unknown(c) => {
                let mut s = String::from_str("<Unknown:");
                push_char(&mut s, *c);
                s.append(">");
                proof {
                    assert(s@ =~= spec_token_text(self@));
                }
                s
            },
            Token::Plus => String::from_str("<Plus>"),
            Token::Minus => String::from_str("<Minus>"),
            Token::Divide => String::from_str("<Divide>"),
            Token::Multiply => String::from_str("<Multiply>"),
            Token::Power => String::from_str("<Power>"),
            Token::StatementEnd => String::from_str("<StatementEnd>"),
            Token::LParen => String::from_str("<LParen>"),
            Token::RParen => String::from_str("<RParen>"),
            Token::Assign => String::from_str("<Assign>"),
            Token::Space => String::from_str("<Space>"),
            Token::EndOfInput => String::from_str("<EndOfInput>"),
        }
    }
}

/// The token sequence produced by one run of the tokenizer, read through a
/// forward-only cursor by the parser.
pub struct Tokens(Vec<Token>);

impl View for Tokens {
    type V = Seq<TokenV>;

    closed spec fn view(&self) -> Seq<TokenV> {
        self.0.deep_view()
    }
}

/// The token at position `i` of the sequence; reading past the end gives
/// `EndOfInput`.
pub open spec fn spec_peek(toks: Seq<TokenV>, i: int) -> TokenV {
    if 0 <= i < toks.len() {
        toks[i]
    } else {
        TokenV::EndOfInput
    }
}

impl Tokens {
    /// A token sequence holding a copy of `tokens`.
    pub fn from(tokens: &Vec<Token>) -> (r: Tokens)
        ensures
            r@ == tokens.deep_view(),
    {
        let mut v: Vec<Token> = Vec::new();
        let mut i: usize = 0;
        while i < tokens.len()
            invariant
                i <= tokens.len(),
                v.deep_view() =~= tokens.deep_view().take(i as int),
            decreases tokens.len() - i,
        {
            let ghost before = v.deep_view();
            v.push(tokens[i].clone());
            proof {
                assert(v.deep_view() =~= before.push(tokens.deep_view()[i as int]));
                assert(tokens.deep_view().take(i as int + 1) =~= tokens.deep_view().take(
                    i as int,
                ).push(tokens.deep_view()[i as int]));
            }
            i = i + 1;
        }
        proof {
            assert(v.deep_view() =~= tokens.deep_view());
        }
        Tokens(v)
    }

    /// The token at `index`; past the end, `EndOfInput`.
    pub fn get_at(&self, index: usize) -> (r: Token)
        ensures
            r@ == spec_peek(self@, index as int),
    {
        if index < self.0.len() {
            self.0[index].clone()
        } else {
            Token::EndOfInput
        }
    }

    /// How many tokens the sequence holds.
    pub fn len(&self) -> (n: usize)
        ensures
            n == self@.len(),
    {
        self.0.len()
    }
}

impl Clone for Tokens {
    fn clone(&self) -> (r: Self)
        ensures
            r@ == self@,
    {
        Tokens::from(&self.0)
    }
}

/// Whether `c` begins (or continues) a number run: a digit or the dot.
pub open spec fn starts_number(c: char) -> bool {
    numeric_char(c) || c as u32 == 46
}

/// Whether `c` continues an identifier run: a letter or a digit.
pub open spec fn continues_ident(c: char) -> bool {
    alpha_char(c) || numeric_char(c)
}

/// The first position at or after `j` that ends a run begun before `j`:
/// for a number run (`number`), the first position whose character is not a
/// digit or dot; for an identifier run, the first that is not alphanumeric.
pub open spec fn run_end(s: Seq<char>, j: int, number: bool) -> int
    decreases s.len() - j
        when 0 <= j <= s.len()
{
    if j >= s.len() {
        j
    } else if (if number {
        starts_number(s[j])
    } else {
        continues_ident(s[j])
    }) {
        run_end(s, j + 1, number)
    } else {
        j
    }
}

/// A run ends no earlier than it begins and no later than the source does.
pub proof fn lemma_run_end_bounds(s: Seq<char>, j: int, number: bool)
    requires
        0 <= j <= s.len(),
    ensures
        j <= run_end(s, j, number) <= s.len(),
    decreases s.len() - j,
{
    if j < s.len() {
        if (if number {
            starts_number(s[j])
        } else {
            continues_ident(s[j])
        }) {
            lemma_run_end_bounds(s, j + 1, number);
        }
    }
}

/// The single-character tokens: operators, separators, parentheses,
/// assignment; anything else is `Unknown`.
pub open spec fn punct_token(c: char) -> TokenV {
    if c == '+' {
        TokenV::Plus
    } else if c == '-' {
        TokenV::Minus
    } else if c == '*' {
        TokenV::Multiply
    } else if c == '/' {
        TokenV::Divide
    } else if c == '^' {
        TokenV::Power
    } else if c == ';' || c == '\n' {
        TokenV::StatementEnd
    } else if c == '(' {
        TokenV::LParen
    } else if c == ')' {
        TokenV::RParen
    } else if c == '=' {
        TokenV::Assign
    } else {
        TokenV::Unknown(c)
    }
}

/// The tokens of `s` from position `i` on: whitespace is dropped, digit-dot
/// and alphanumeric runs become `Number` and `Identifier` tokens carrying
/// the run's text, every other character maps to its single-character
/// token, and `EndOfInput` closes the sequence.
pub open spec fn spec_tokenize(s: Seq<char>, i: int) -> Seq<TokenV>
    decreases s.len() - i
        when 0 <= i <= s.len()
        via spec_tokenize_decreases
{
    if i >= s.len() {
        seq![TokenV::EndOfInput]
    } else {
        let c = s[i];
        if c == ' ' || c == '\r' {
            spec_tokenize(s, i + 1)
        } else if starts_number(c) {
            let j = run_end(s, i + 1, true);
            seq![TokenV::Number(s.subrange(i, j))] + spec_tokenize(s, j)
        } else if alpha_char(c) {
            let j = run_end(s, i + 1, false);
            seq![TokenV::Identifier(s.subrange(i, j))] + spec_tokenize(s, j)
        } else {
            seq![punct_token(c)] + spec_tokenize(s, i + 1)
        }
    }
}

#[via_fn]
proof fn spec_tokenize_decreases(s: Seq<char>, i: int) {
    if 0 <= i < s.len() {
        lemma_run_end_bounds(s, i + 1, true);
        lemma_run_end_bounds(s, i + 1, false);
    }
}

/// The character-level tokenizer, a cursor over one line of source text.
pub struct Lexer<'a> {
    code: &'a str,
    pos: usize,
    len: usize,
}

impl<'a> Lexer<'a> {
    /// The source text being tokenized.
    pub closed spec fn src(&self) -> Seq<char> {
        self.code@
    }

    /// The cursor's position, in characters.
    pub closed spec fn at(&self) -> int {
        self.pos as int
    }

    /// The cursor lies within the source and the cached length is right.
    pub closed spec fn wf(&self) -> bool {
        self.len == self.code@.len() && self.pos <= self.len
    }

    /// A tokenizer over `code`, positioned at its start.
    pub fn new(code: &str) -> (r: Lexer)
        ensures
            r.wf(),
            r.src() == code@,
            r.at() == 0,
    {
        let len = code.unicode_len();
        Lexer { code, pos: 0, len }
    }

    /// Consumes and returns the character under the cursor, if any.
    fn eat(&mut self) -> (r: Option<char>)
        requires
            old(self).wf(),
        ensures
            final(self).wf(),
            final(self).src() == old(self).src(),
            old(self).at() < old(self).src().len() ==> r == Some(old(self).src()[old(self).at()])
                && final(self).at() == old(self).at() + 1,
            old(self).at() >= old(self).src().len() ==> r is None && final(self).at() == old(
                self,
            ).at(),
    {
        if self.pos < self.len {
            let c = self.code.get_char(self.pos);
            self.pos = self.pos + 1;
            Some(c)
        } else {
            None
        }
    }

    /// The end of the run that begins just before the cursor: the first
    /// position at or after `from` whose character no longer continues the
    /// run.
    fn find_run_end(&self, from: usize, number: bool) -> (j: usize)
        requires
            self.wf(),
            from <= self.src().len(),
        ensures
            from <= j <= self.src().len(),
            j as int == run_end(self.src(), from as int, number),
    {
        let ghost s = self.src();
        let mut j: usize = from;
        loop
            invariant
                self.wf(),
                self.src() == s,
                from <= j <= self.len,
                run_end(s, from as int, number) == run_end(s, j as int, number),
            ensures
                from <= j <= self.len,
                j as int == run_end(s, from as int, number),
            decreases self.len - j,
        {
            if j >= self.len {
                proof {
                    assert(run_end(s, j as int, number) == j);
                }
                break ;
            }
            let c = self.code.get_char(j);
            let cont = if number {
                crate::numeric::ch_is_numeric(c) || c as u32 == 46
            } else {
                crate::numeric::ch_is_alphanumeric(c)
            };
            if !cont {
                proof {
                    assert(run_end(s, j as int, number) == j);
                }
                break ;
            }
            proof {
                assert(run_end(s, j as int, number) == run_end(s, j + 1, number));
            }
            j = j + 1;
        }
        j
    }

    /// The lexeme of a number or identifier run: the starting character
    /// `base`, then every further character of the run, which the cursor
    /// consumes.
    fn make_long_token(&mut self, base: char, number: bool) -> (lex: String)
        requires
            old(self).wf(),
        ensures
            final(self).wf(),
            final(self).src() == old(self).src(),
            final(self).at() == run_end(old(self).src(), old(self).at(), number),
            lex@ == seq![base] + old(self).src().subrange(old(self).at(), final(self).at()),
    {
        let start = self.pos;
        let j = self.find_run_end(start, number);
        self.pos = j;
        let rest = self.code.substring_char(start, j);
        let mut lex = String::new();
        push_char(&mut lex, base);
        lex.append(rest);
        proof {
            assert(lex@ =~= seq![base] + old(self).src().subrange(start as int, j as int));
        }
        lex
    }

    /// The token begun by `character`, consuming the rest of its run when
    /// it opens a number or identifier.
    fn get_kind(&mut self, character: char) -> (t: Token)
        requires
            old(self).wf(),
        ensures
            final(self).wf(),
            final(self).src() == old(self).src(),
            ({
                let s = old(self).src();
                let i = old(self).at();
                if character == ' ' || character == '\r' {
                    t@ == TokenV::Space && final(self).at() == i
                } else if starts_number(character) {
                    t@ == TokenV::Number(seq![character] + s.subrange(i, run_end(s, i, true)))
                        && final(self).at() == run_end(s, i, true)
                } else if alpha_char(character) {
                    t@ == TokenV::Identifier(seq![character] + s.subrange(i, run_end(s, i, false)))
                        && final(self).at() == run_end(s, i, false)
                } else {
                    t@ == punct_token(character) && final(self).at() == i
                }
            }),
    {
        if character == ' ' || character == '\r' {
            Token::Space
        } else if crate::numeric::ch_is_numeric(character) || character as u32 == 46 {
            Token::Number(self.make_long_token(character, true))
        } else if crate::numeric::ch_is_alphabetic(character) {
            Token::Identifier(self.make_long_token(character, false))
        } else {
            match character {
                '+' => Token::Plus,
                '-' => Token::Minus,
                '*' => Token::Multiply,
                '/' => Token::Divide,
                '^' => Token::Power,
                ';' | '\n' => Token::StatementEnd,
                '(' => Token::LParen,
                ')' => Token::RParen,
                '=' => Token::Assign,
                any => Token::Unknown(any),
            }
        }
    }

    /// Tokenizes the rest of the source: exactly the token sequence that
    /// `spec_tokenize` gives from the cursor's position.
    pub fn tokenize(&mut self) -> (r: Tokens)
        requires
            old(self).wf(),
        ensures
            final(self).wf(),
            r@ == spec_tokenize(old(self).src(), old(self).at()),
    {
        let ghost s = self.src();
        let ghost start = self.at();
        let mut tokens: Vec<Token> = Vec::new();
        loop
            invariant_except_break
                spec_tokenize(s, start) =~= tokens.deep_view() + spec_tokenize(s, self.at()),
            invariant
                self.wf(),
                self.src() == s,
                0 <= start <= s.len(),
                self.at() <= s.len(),
            ensures
                tokens.deep_view() =~= spec_tokenize(s, start),
            decreases s.len() - self.at(),
        {
            let ghost i = self.at();
            let ghost toks_before = tokens.deep_view();
            let char_ = match self.eat() {
                Some(c) => c,
                None => {
                    tokens.push(Token::EndOfInput);
                    proof {
                        assert(spec_tokenize(s, i) == seq![TokenV::EndOfInput]);
                        assert(tokens.deep_view() =~= toks_before + seq![TokenV::EndOfInput]);
                        assert(tokens.deep_view() =~= spec_tokenize(s, start));
                    }
                    break ;
                },
            };
            let kind = self.get_kind(char_);
            proof {
                if char_ == ' ' || char_ == '\r' {
                    assert(spec_tokenize(s, i) == spec_tokenize(s, i + 1));
                } else if starts_number(char_) {
                    lemma_run_end_bounds(s, i + 1, true);
                    let j = run_end(s, i + 1, true);
                    assert(seq![char_] + s.subrange(i + 1, j) =~= s.subrange(i, j));
                    assert(spec_tokenize(s, i) == seq![TokenV::Number(s.subrange(i, j))]
                        + spec_tokenize(s, j));
                } else if alpha_char(char_) {
                    lemma_run_end_bounds(s, i + 1, false);
                    let j = run_end(s, i + 1, false);
                    assert(seq![char_] + s.subrange(i + 1, j) =~= s.subrange(i, j));
                    assert(spec_tokenize(s, i) == seq![TokenV::Identifier(s.subrange(i, j))]
                        + spec_tokenize(s, j));
                } else {
                    assert(spec_tokenize(s, i) == seq![punct_token(char_)] + spec_tokenize(
                        s,
                        i + 1,
                    ));
                }
            }
            if kind.is(Token::Space) {
                continue ;
            }
            let ghost kv = kind@;
            tokens.push(kind);
            proof {
                assert(tokens.deep_view() =~= toks_before.push(kv));
                assert(toks_before.push(kv) + spec_tokenize(s, self.at()) =~= toks_before + (
                seq![kv] + spec_tokenize(s, self.at())));
            }
        }
        Tokens::from(&tokens)
    }
}

/// Law: tokenizing the empty source yields exactly one token, end of input.
pub proof fn lemma_tokenize_empty()
    ensures
        spec_tokenize(Seq::<char>::empty(), 0) == seq![TokenV::EndOfInput],
{
}

/// Law: tokenizing whitespace-only input (spaces and carriage returns)
/// yields exactly one token, end of input.
pub proof fn lemma_tokenize_whitespace(s: Seq<char>)
    requires
        forall|i: int| 0 <= i < s.len() ==> s[i] == ' ' || s[i] == '\r',
    ensures
        spec_tokenize(s, 0) == seq![TokenV::EndOfInput],
{
    lemma_tokenize_whitespace_from(s, 0);
}

proof fn lemma_tokenize_whitespace_from(s: Seq<char>, i: int)
    requires
        0 <= i <= s.len(),
        forall|k: int| 0 <= k < s.len() ==> s[k] == ' ' || s[k] == '\r',
    ensures
        spec_tokenize(s, i) == seq![TokenV::EndOfInput],
    decreases s.len() - i,
{
    if i < s.len() {
        lemma_tokenize_whitespace_from(s, i + 1);
    }
}

/// Law: the lexeme text of every `Number` and `Identifier` token is a
/// contiguous substring of the tokenized source, reproduced exactly.
pub proof fn lemma_lexeme_round_trip(s: Seq<char>, k: int)
    requires
        0 <= k < spec_tokenize(s, 0).len(),
    ensures
        spec_tokenize(s, 0)[k] matches TokenV::Number(x) ==> exists|a: int, b: int|
            0 <= a <= b <= s.len() && x == s.subrange(a, b),
        spec_tokenize(s, 0)[k] matches TokenV::Identifier(x) ==> exists|a: int, b: int|
            0 <= a <= b <= s.len() && x == s.subrange(a, b),
{
    lemma_lexeme_round_trip_from(s, 0, k);
}

proof fn lemma_lexeme_round_trip_from(s: Seq<char>, i: int, k: int)
    requires
        0 <= i <= s.len(),
        0 <= k < spec_tokenize(s, i).len(),
    ensures
        spec_tokenize(s, i)[k] matches TokenV::Number(x) ==> exists|a: int, b: int|
            0 <= a <= b <= s.len() && x == s.subrange(a, b),
        spec_tokenize(s, i)[k] matches TokenV::Identifier(x) ==> exists|a: int, b: int|
            0 <= a <= b <= s.len() && x == s.subrange(a, b),
    decreases s.len() - i,
{
    if i >= s.len() {
    } else {
        let c = s[i];
        if c == ' ' || c == '\r' {
            lemma_lexeme_round_trip_from(s, i + 1, k);
        } else if starts_number(c) {
            let j = run_end(s, i + 1, true);
            lemma_run_end_bounds(s, i + 1, true);
            if k == 0 {
                assert(0 <= i <= j <= s.len() && spec_tokenize(s, i)[0] == TokenV::Number(
                    s.subrange(i, j),
                ));
            } else {
                lemma_lexeme_round_trip_from(s, j, k - 1);
            }
        } else if alpha_char(c) {
            let j = run_end(s, i + 1, false);
            lemma_run_end_bounds(s, i + 1, false);
            if k == 0 {
                assert(0 <= i <= j <= s.len() && spec_tokenize(s, i)[0] == TokenV::Identifier(
                    s.subrange(i, j),
                ));
            } else {
                lemma_lexeme_round_trip_from(s, j, k - 1);
            }
        } else {
            if k == 0 {
            } else {
                lemma_lexeme_round_trip_from(s, i + 1, k - 1);
            }
        }
    }
}

} // verus!
