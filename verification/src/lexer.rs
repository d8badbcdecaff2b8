//! The tokens of the script language.

use vstd::prelude::*;
use crate::text::chars_of;

verus! {

/// Why a script was refused.
#[derive(Debug, Clone, Copy, PartialEq, Eq, Structural)]
pub enum CompileError {
    /// The character at `at` starts no token.
    UnexpectedChar { at: usize },
    /// The string literal that opens at the character `at` is not closed.
    UnterminatedString { at: usize },
    /// The integer literal at the character `at` does not fit 64 bits.
    IntegerTooLarge { at: usize },
    /// The token with index `at` cannot stand where it does.
    UnexpectedToken { at: usize },
    /// The script ends where a token is needed.
    UnexpectedEnd,
    /// The token with index `at` is a name that nothing defines.
    UndefinedIdentifier { at: usize },
    /// The token with index `at` names a node where `!!` needs a function call.
    NotAFunction { at: usize },
    /// The token with index `at` names a function where a bound node is needed.
    NotANode { at: usize },
    /// Arguments are given to the bound node named by the token with index `at`.
    ArgumentsOnNode { at: usize },
    /// The composite node `node` would get a second output.
    CompositeFanOut { node: usize },
}

/// A token of the script language.
#[derive(Debug)]
pub enum Token {
    Ident(String),
    Int(u64),
    Str(String),
    /// `=`
    Assign,
    /// `=>`
    Arrow,
    /// `!!`
    Bang,
    /// `.`
    Dot,
    /// `:`
    Colon,
    /// `(`
    Open,
    /// `)`
    Close,
    /// `,`
    Comma,
}

/// What a [`Token`] stands for.
pub enum TokenValue {
    Ident(Seq<char>),
    Int(u64),
    Str(Seq<char>),
    Assign,
    Arrow,
    Bang,
    Dot,
    Colon,
    Open,
    Close,
    Comma,
}

impl View for Token {
    type V = TokenValue;

    open spec fn view(&self) -> TokenValue {
        match self {
            Token::Ident(s) => TokenValue::Ident(s@),
            Token::Int(x) => TokenValue::Int(*x),
            Token::Str(s) => TokenValue::Str(s@),
            Token::Assign => TokenValue::Assign,
            Token::Arrow => TokenValue::Arrow,
            Token::Bang => TokenValue::Bang,
            Token::Dot => TokenValue::Dot,
            Token::Colon => TokenValue::Colon,
            Token::Open => TokenValue::Open,
            Token::Close => TokenValue::Close,
            Token::Comma => TokenValue::Comma,
        }
    }
}

/// The views of a run of tokens.
pub open spec fn token_values(tokens: Seq<Token>) -> Seq<TokenValue> {
    tokens.map_values(|t: Token| t@)
}

/// White space: blank, tab, line feed and carriage return.
pub open spec fn is_space(c: char) -> bool {
    c == ' ' || c == '\t' || c == '\n' || c == '\r'
}

/// A letter of the Latin alphabet, small or capital.
pub open spec fn is_letter(c: char) -> bool {
    ('a' <= c && c <= 'z') || ('A' <= c && c <= 'Z')
}

/// A decimal digit.
pub open spec fn is_digit(c: char) -> bool {
    '0' <= c && c <= '9'
}

/// A character that may follow the first letter of an identifier.
pub open spec fn is_word(c: char) -> bool {
    is_letter(c) || is_digit(c) || c == '_'
}

/// The end of the identifier characters that start at `from`.
pub open spec fn word_end(s: Seq<char>, from: int) -> int
    decreases s.len() - from,
{
    if 0 <= from < s.len() && is_word(s[from]) {
        word_end(s, from + 1)
    } else {
        from
    }
}

/// The end of the digits that start at `from`.
pub open spec fn digits_end(s: Seq<char>, from: int) -> int
    decreases s.len() - from,
{
    if 0 <= from < s.len() && is_digit(s[from]) {
        digits_end(s, from + 1)
    } else {
        from
    }
}

/// The place of the first double quote at or after `from`, or the length of
/// `s` where there is none.
pub open spec fn quote_at(s: Seq<char>, from: int) -> int
    decreases s.len() - from,
{
    if 0 <= from < s.len() && s[from] != '"' {
        quote_at(s, from + 1)
    } else {
        from
    }
}

/// The place of the first character at or after `from` that is no white space.
pub open spec fn space_end(s: Seq<char>, from: int) -> int
    decreases s.len() - from,
{
    if 0 <= from < s.len() && is_space(s[from]) {
        space_end(s, from + 1)
    } else {
        from
    }
}

/// The number that a run of decimal digits writes.
pub open spec fn decimal(digits: Seq<char>) -> nat
    decreases digits.len(),
{
    if digits.len() == 0 {
        0
    } else {
        decimal(digits.drop_last()) * 10 + (digits.last() as u32 - '0' as u32) as nat
    }
}

/// The token that starts at `at`, where a character that is no white space
/// stands, and the place where it ends.
pub open spec fn token_at(s: Seq<char>, at: int) -> Result<(TokenValue, int), CompileError>
    recommends
        0 <= at < s.len(),
{
    let c = s[at];
    if is_letter(c) {
        let end = word_end(s, at + 1);
        Ok((TokenValue::Ident(s.subrange(at, end)), end))
    } else if is_digit(c) {
        let end = digits_end(s, at + 1);
        let value = decimal(s.subrange(at, end));
        if value <= u64::MAX {
            Ok((TokenValue::Int(value as u64), end))
        } else {
            Err(CompileError::IntegerTooLarge { at: at as usize })
        }
    } else if c == '"' {
        let close = quote_at(s, at + 1);
        if close < s.len() {
            Ok((TokenValue::Str(s.subrange(at + 1, close)), close + 1))
        } else {
            Err(CompileError::UnterminatedString { at: at as usize })
        }
    } else if c == '=' {
        if at + 1 < s.len() && s[at + 1] == '>' {
            Ok((TokenValue::Arrow, at + 2))
        } else {
            Ok((TokenValue::Assign, at + 1))
        }
    } else if c == '!' {
        if at + 1 < s.len() && s[at + 1] == '!' {
            Ok((TokenValue::Bang, at + 2))
        } else {
            Err(CompileError::UnexpectedChar { at: at as usize })
        }
    } else if c == '.' {
        Ok((TokenValue::Dot, at + 1))
    } else if c == ':' {
        Ok((TokenValue::Colon, at + 1))
    } else if c == '(' {
        Ok((TokenValue::Open, at + 1))
    } else if c == ')' {
        Ok((TokenValue::Close, at + 1))
    } else if c == ',' {
        Ok((TokenValue::Comma, at + 1))
    } else {
        Err(CompileError::UnexpectedChar { at: at as usize })
    }
}

/// The tokens of `s` from `from` on. White space separates tokens and means
/// nothing else. A string literal holds the characters between its quotes as
/// they are: there is no escape.
pub open spec fn lex_from(s: Seq<char>, from: int) -> Result<Seq<TokenValue>, CompileError>
    decreases s.len() - from,
{
    let at = space_end(s, from);
    if 0 <= from <= at < s.len() {
        match token_at(s, at) {
            Err(e) => Err(e),
            Ok((token, end)) => if at < end <= s.len() {
                match lex_from(s, end) {
                    Err(e) => Err(e),
                    Ok(rest) => Ok(seq![token] + rest),
                }
            } else {
                Err(CompileError::UnexpectedChar { at: at as usize })
            },
        }
    } else {
        Ok(Seq::empty())
    }
}

/// The tokens of a script.
pub open spec fn lex(s: Seq<char>) -> Result<Seq<TokenValue>, CompileError> {
    lex_from(s, 0)
}

fn letter(c: char) -> (r: bool)
    ensures
        r == is_letter(c),
{
    ('a' <= c && c <= 'z') || ('A' <= c && c <= 'Z')
}

fn digit(c: char) -> (r: bool)
    ensures
        r == is_digit(c),
{
    '0' <= c && c <= '9'
}

fn scan_word(s: &Vec<char>, from: usize) -> (end: usize)
    requires
        from <= s@.len(),
    ensures
        end == word_end(s@, from as int),
        from <= end <= s@.len(),
{
    let mut i: usize = from;
    while i < s.len() && (letter(s[i]) || digit(s[i]) || s[i] == '_')
        invariant
            from <= i <= s@.len(),
            word_end(s@, from as int) == word_end(s@, i as int),
        decreases s@.len() - i,
    {
        i += 1;
    }
    i
}

fn scan_space(s: &Vec<char>, from: usize) -> (end: usize)
    requires
        from <= s@.len(),
    ensures
        end == space_end(s@, from as int),
        from <= end <= s@.len(),
{
    let mut i: usize = from;
    while i < s.len() && (s[i] == ' ' || s[i] == '\t' || s[i] == '\n' || s[i] == '\r')
        invariant
            from <= i <= s@.len(),
            space_end(s@, from as int) == space_end(s@, i as int),
        decreases s@.len() - i,
    {
        i += 1;
    }
    i
}

fn scan_quote(s: &Vec<char>, from: usize) -> (end: usize)
    requires
        from <= s@.len(),
    ensures
        end == quote_at(s@, from as int),
        from <= end <= s@.len(),
{
    let mut i: usize = from;
    while i < s.len() && s[i] != '"'
        invariant
            from <= i <= s@.len(),
            quote_at(s@, from as int) == quote_at(s@, i as int),
        decreases s@.len() - i,
    {
        i += 1;
    }
    i
}

/// Reads the digits that start at `from`; `None` where the number does not
/// fit 64 bits.
fn scan_number(s: &Vec<char>, from: usize) -> (r: (Option<u64>, usize))
    requires
        from < s@.len(),
        is_digit(s@[from as int]),
    ensures
        r.1 == digits_end(s@, from + 1),
        from < r.1 <= s@.len(),
        match r.0 {
            Some(x) => x == decimal(s@.subrange(from as int, r.1 as int)),
            None => decimal(s@.subrange(from as int, r.1 as int)) > u64::MAX,
        },
{
    let mut i: usize = from;
    let mut value: u64 = 0;
    let mut fits = true;
    assert(s@.subrange(from as int, from as int) =~= Seq::<char>::empty());
    while i < s.len() && digit(s[i])
        invariant
            from <= i <= s@.len(),
            i == from ==> is_digit(s@[from as int]),
            digits_end(s@, from + 1) == if i == from {
                digits_end(s@, from + 1)
            } else {
                digits_end(s@, i as int)
            },
            fits ==> value == decimal(s@.subrange(from as int, i as int)),
            !fits ==> decimal(s@.subrange(from as int, i as int)) > u64::MAX,
        decreases s@.len() - i,
    {
        let d = (s[i] as u32 - '0' as u32) as u64;
        let ghost before = s@.subrange(from as int, i as int);
        let ghost after = s@.subrange(from as int, i + 1);
        assert(after.drop_last() =~= before);
        assert(after.last() == s@[i as int]);
        if fits {
            if value > (u64::MAX - d) / 10 {
                fits = false;
            } else {
                value = value * 10 + d;
            }
        }
        i += 1;
    }
    proof {
        if i == from {
            assert(false);
        }
    }
    if fits {
        (Some(value), i)
    } else {
        (None, i)
    }
}

/// Splits a script into its tokens.
pub fn tokenize(code: &str) -> (r: Result<Vec<Token>, CompileError>)
    ensures
        match lex(code@) {
            Ok(tokens) => r is Ok && token_values(r->Ok_0@) == tokens,
            Err(e) => r == Err::<Vec<Token>, CompileError>(e),
        },
{
    let s = chars_of(code);
    let mut tokens: Vec<Token> = Vec::new();
    let mut pos: usize = 0;
    assert(token_values(tokens@) =~= Seq::<TokenValue>::empty());
    loop
        invariant
            s@ == code@,
            pos <= s@.len(),
            lex(s@) == (match lex_from(s@, pos as int) {
                Ok(rest) => Ok(token_values(tokens@) + rest),
                Err(e) => Err(e),
            }),
        decreases s@.len() - pos,
    {
        let at = scan_space(&s, pos);
        if at >= s.len() {
            assert(token_values(tokens@) + Seq::<TokenValue>::empty() =~= token_values(tokens@));
            return Ok(tokens);
        }
        let c = s[at];
        let ghost before = token_values(tokens@);
        let token: Token;
        let end: usize;
        if letter(c) {
            end = scan_word(&s, at + 1);
            token = Token::Ident(code.substring_char(at, end).to_owned());
        } else if digit(c) {
            let (value, e) = scan_number(&s, at);
            end = e;
            match value {
                Some(x) => {
                    token = Token::Int(x);
                },
                None => {
                    return Err(CompileError::IntegerTooLarge { at });
                },
            }
        } else if c == '"' {
            let close = scan_quote(&s, at + 1);
            if close >= s.len() {
                return Err(CompileError::UnterminatedString { at });
            }
            end = close + 1;
            token = Token::Str(code.substring_char(at + 1, close).to_owned());
        } else if c == '=' {
            if at + 1 < s.len() && s[at + 1] == '>' {
                end = at + 2;
                token = Token::Arrow;
            } else {
                end = at + 1;
                token = Token::Assign;
            }
        } else if c == '!' {
            if at + 1 < s.len() && s[at + 1] == '!' {
                end = at + 2;
                token = Token::Bang;
            } else {
                return Err(CompileError::UnexpectedChar { at });
            }
        } else if c == '.' {
            end = at + 1;
            token = Token::Dot;
        } else if c == ':' {
            end = at + 1;
            token = Token::Colon;
        } else if c == '(' {
            end = at + 1;
            token = Token::Open;
        } else if c == ')' {
            end = at + 1;
            token = Token::Close;
        } else if c == ',' {
            end = at + 1;
            token = Token::Comma;
        } else {
            return Err(CompileError::UnexpectedChar { at });
        }
        assert(token_at(s@, at as int) == Ok::<(TokenValue, int), CompileError>((token@, end as int)));
        tokens.push(token);
        proof {
            assert(token_values(tokens@) =~= before.push(token@));
            match lex_from(s@, end as int) {
                Ok(rest) => {
                    assert(before + (seq![token@] + rest) =~= token_values(tokens@) + rest);
                },
                Err(_) => {},
            }
        }
        pos = end;
    }
}

} // verus!
