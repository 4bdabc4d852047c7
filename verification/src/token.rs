//! Token vocabulary of the lexer: the closed set of token variants, the
//! positioned-token and line-record types, and the classification predicates
//! (`is_operator`, `is_value`, `operator_precedence`) that both the scanner
//! and downstream expression parsing rely on.

use vstd::prelude::*;

verus! {

/// A non-negative integer label identifying a source line. Lines are
/// conceptually ordered by this value by downstream consumers.
#[derive(Debug, Clone, PartialEq, Eq, PartialOrd, Ord)]
pub struct LineNumber(pub u32);

/// One classified token of a source line.
///
/// The set is closed: free-form payload carriers (`Comment`, `Variable`,
/// `Number`, `BString`), ten binary operators, parentheses, two unary
/// operators, and seven keywords.
#[derive(Debug, Clone, PartialEq)]
pub enum Token {
    Comment(String),
    Variable(String),
    Number(i32),
    BString(String),
    Equals,
    LessThan,
    GreaterThan,
    LessThanEqual,
    GreaterThanEqual,
    NotEqual,
    Multiply,
    Divide,
    Minus,
    Plus,
    LParen,
    RParen,
    Bang,
    UMinus,
    Goto,
    If,
    Input,
    Let,
    Print,
    Rem,
    Then,
}

/// Mathematical model of a [`Token`]: text payloads as `Seq<char>`, the
/// numeric payload as an unbounded integer.
pub enum TokenV {
    Comment(Seq<char>),
    Variable(Seq<char>),
    Number(int),
    BString(Seq<char>),
    Equals,
    LessThan,
    GreaterThan,
    LessThanEqual,
    GreaterThanEqual,
    NotEqual,
    Multiply,
    Divide,
    Minus,
    Plus,
    LParen,
    RParen,
    Bang,
    UMinus,
    Goto,
    If,
    Input,
    Let,
    Print,
    Rem,
    Then,
}

impl View for Token {
    type V = TokenV;

    open spec fn view(&self) -> TokenV {
        match self {
            Token::Comment(s) => TokenV::Comment(s@),
            Token::Variable(s) => TokenV::Variable(s@),
            Token::Number(n) => TokenV::Number(*n as int),
            Token::BString(s) => TokenV::BString(s@),
            Token::Equals => TokenV::Equals,
            Token::LessThan => TokenV::LessThan,
            Token::GreaterThan => TokenV::GreaterThan,
            Token::LessThanEqual => TokenV::LessThanEqual,
            Token::GreaterThanEqual => TokenV::GreaterThanEqual,
            Token::NotEqual => TokenV::NotEqual,
            Token::Multiply => TokenV::Multiply,
            Token::Divide => TokenV::Divide,
            Token::Minus => TokenV::Minus,
            Token::Plus => TokenV::Plus,
            Token::LParen => TokenV::LParen,
            Token::RParen => TokenV::RParen,
            Token::Bang => TokenV::Bang,
            Token::UMinus => TokenV::UMinus,
            Token::Goto => TokenV::Goto,
            Token::If => TokenV::If,
            Token::Input => TokenV::Input,
            Token::Let => TokenV::Let,
            Token::Print => TokenV::Print,
            Token::Rem => TokenV::Rem,
            Token::Then => TokenV::Then,
        }
    }
}

/// A binary operator: one of the ten operator variants. These are exactly
/// the variants whose precedence is defined.
pub open spec fn spec_is_operator(t: TokenV) -> bool {
    match t {
        TokenV::Equals
        | TokenV::LessThan
        | TokenV::GreaterThan
        | TokenV::LessThanEqual
        | TokenV::GreaterThanEqual
        | TokenV::NotEqual
        | TokenV::Multiply
        | TokenV::Divide
        | TokenV::Minus
        | TokenV::Plus => true,
        _ => false,
    }
}

/// A value-producing token: a variable, a number literal, or a string
/// literal. The scanner uses this to tell binary minus from unary minus.
pub open spec fn spec_is_value(t: TokenV) -> bool {
    match t {
        TokenV::Variable(_) | TokenV::Number(_) | TokenV::BString(_) => true,
        _ => false,
    }
}

/// The fixed precedence ranking: multiplicative operators bind tightest,
/// then additive, then the six comparisons; every other variant has none.
pub open spec fn spec_operator_precedence(t: TokenV) -> Option<u8> {
    match t {
        TokenV::Multiply | TokenV::Divide => Some(10u8),
        TokenV::Minus | TokenV::Plus => Some(8u8),
        TokenV::Equals
        | TokenV::LessThan
        | TokenV::GreaterThan
        | TokenV::LessThanEqual
        | TokenV::GreaterThanEqual
        | TokenV::NotEqual => Some(4u8),
        _ => None,
    }
}

/// The token spelled exactly by `s`, if `s` is one of the fixed operator or
/// keyword spellings (case-sensitive, exact match).
pub open spec fn spec_token_for_string(s: Seq<char>) -> Option<TokenV> {
    if s.len() == 1 {
        if s[0] == '=' {
            Some(TokenV::Equals)
        } else if s[0] == '<' {
            Some(TokenV::LessThan)
        } else if s[0] == '>' {
            Some(TokenV::GreaterThan)
        } else if s[0] == '*' {
            Some(TokenV::Multiply)
        } else if s[0] == '/' {
            Some(TokenV::Divide)
        } else if s[0] == '-' {
            Some(TokenV::Minus)
        } else if s[0] == '+' {
            Some(TokenV::Plus)
        } else if s[0] == '(' {
            Some(TokenV::LParen)
        } else if s[0] == ')' {
            Some(TokenV::RParen)
        } else if s[0] == '!' {
            Some(TokenV::Bang)
        } else {
            None
        }
    } else if s.len() == 2 {
        if s[0] == '<' && s[1] == '=' {
            Some(TokenV::LessThanEqual)
        } else if s[0] == '>' && s[1] == '=' {
            Some(TokenV::GreaterThanEqual)
        } else if s[0] == '<' && s[1] == '>' {
            Some(TokenV::NotEqual)
        } else if s[0] == 'I' && s[1] == 'F' {
            Some(TokenV::If)
        } else {
            None
        }
    } else if s.len() == 3 {
        if s[0] == 'L' && s[1] == 'E' && s[2] == 'T' {
            Some(TokenV::Let)
        } else if s[0] == 'R' && s[1] == 'E' && s[2] == 'M' {
            Some(TokenV::Rem)
        } else {
            None
        }
    } else if s.len() == 4 {
        if s[0] == 'G' && s[1] == 'O' && s[2] == 'T' && s[3] == 'O' {
            Some(TokenV::Goto)
        } else if s[0] == 'T' && s[1] == 'H' && s[2] == 'E' && s[3] == 'N' {
            Some(TokenV::Then)
        } else {
            None
        }
    } else if s.len() == 5 {
        if s[0] == 'I' && s[1] == 'N' && s[2] == 'P' && s[3] == 'U' && s[4] == 'T' {
            Some(TokenV::Input)
        } else if s[0] == 'P' && s[1] == 'R' && s[2] == 'I' && s[3] == 'N' && s[4] == 'T' {
            Some(TokenV::Print)
        } else {
            None
        }
    } else {
        None
    }
}

/// The model of an `Option<Token>` result.
pub open spec fn spec_token_option(r: Option<Token>) -> Option<TokenV> {
    match r {
        Some(t) => Some(t@),
        None => None,
    }
}

impl Token {
    /// Looks `token_str` up in the fixed spelling table: the thirteen
    /// operator and parenthesis spellings and the seven keywords,
    /// case-sensitive and exact.
    pub fn token_for_string(token_str: &str) -> (r: Option<Token>)
        ensures
            spec_token_option(r) == spec_token_for_string(token_str@),
    {
        let n = token_str.unicode_len();
        if n == 1 {
            let c = token_str.get_char(0);
            if c == '=' {
                Some(Token::Equals)
            } else if c == '<' {
                Some(Token::LessThan)
            } else if c == '>' {
                Some(Token::GreaterThan)
            } else if c == '*' {
                Some(Token::Multiply)
            } else if c == '/' {
                Some(Token::Divide)
            } else if c == '-' {
                Some(Token::Minus)
            } else if c == '+' {
                Some(Token::Plus)
            } else if c == '(' {
                Some(Token::LParen)
            } else if c == ')' {
                Some(Token::RParen)
            } else if c == '!' {
                Some(Token::Bang)
            } else {
                None
            }
        } else if n == 2 {
            let c0 = token_str.get_char(0);
            let c1 = token_str.get_char(1);
            if c0 == '<' && c1 == '=' {
                Some(Token::LessThanEqual)
            } else if c0 == '>' && c1 == '=' {
                Some(Token::GreaterThanEqual)
            } else if c0 == '<' && c1 == '>' {
                Some(Token::NotEqual)
            } else if c0 == 'I' && c1 == 'F' {
                Some(Token::If)
            } else {
                None
            }
        } else if n == 3 {
            let c0 = token_str.get_char(0);
            let c1 = token_str.get_char(1);
            let c2 = token_str.get_char(2);
            if c0 == 'L' && c1 == 'E' && c2 == 'T' {
                Some(Token::Let)
            } else if c0 == 'R' && c1 == 'E' && c2 == 'M' {
                Some(Token::Rem)
            } else {
                None
            }
        } else if n == 4 {
            let c0 = token_str.get_char(0);
            let c1 = token_str.get_char(1);
            let c2 = token_str.get_char(2);
            let c3 = token_str.get_char(3);
            if c0 == 'G' && c1 == 'O' && c2 == 'T' && c3 == 'O' {
                Some(Token::Goto)
            } else if c0 == 'T' && c1 == 'H' && c2 == 'E' && c3 == 'N' {
                Some(Token::Then)
            } else {
                None
            }
        } else if n == 5 {
            let c0 = token_str.get_char(0);
            let c1 = token_str.get_char(1);
            let c2 = token_str.get_char(2);
            let c3 = token_str.get_char(3);
            let c4 = token_str.get_char(4);
            if c0 == 'I' && c1 == 'N' && c2 == 'P' && c3 == 'U' && c4 == 'T' {
                Some(Token::Input)
            } else if c0 == 'P' && c1 == 'R' && c2 == 'I' && c3 == 'N' && c4 == 'T' {
                Some(Token::Print)
            } else {
                None
            }
        } else {
            None
        }
    }

    /// Whether this token is one of the ten binary operators.
    pub fn is_operator(&self) -> (r: bool)
        ensures
            r == spec_is_operator(self@),
    {
        match *self {
            Token::Equals
            | Token::LessThan
            | Token::GreaterThan
            | Token::LessThanEqual
            | Token::GreaterThanEqual
            | Token::NotEqual
            | Token::Multiply
            | Token::Divide
            | Token::Minus
            | Token::Plus => true,
            _ => false,
        }
    }

    /// Whether this token produces a value: a variable, number, or string
    /// literal.
    pub fn is_value(&self) -> (r: bool)
        ensures
            r == spec_is_value(self@),
    {
        match *self {
            Token::Variable(_) | Token::Number(_) | Token::BString(_) => true,
            _ => false,
        }
    }

    /// The binding strength of a binary operator: 10 for `*` and `/`, 8 for
    /// `-` and `+`, 4 for the six comparisons. Any other variant is refused.
    pub fn operator_precedence(&self) -> (r: Result<u8, String>)
        ensures
            match r {
                Ok(p) => spec_operator_precedence(self@) == Some(p),
                Err(m) => spec_operator_precedence(self@) is None && m@ == "Not an operator"@,
            },
    {
        match *self {
            Token::Multiply | Token::Divide => Ok(10),
            Token::Minus | Token::Plus => Ok(8),
            Token::Equals
            | Token::LessThan
            | Token::GreaterThan
            | Token::LessThanEqual
            | Token::GreaterThanEqual
            | Token::NotEqual => Ok(4),
            _ => Err("Not an operator".to_owned()),
        }
    }
}

/// A token together with the zero-based character offset at which its
/// recognition began within the source line.
#[derive(Debug, Clone, PartialEq)]
pub struct TokenAndPos(pub u32, pub Token);

/// Mathematical model of a [`TokenAndPos`].
pub struct TokenAndPosV {
    pub pos: int,
    pub token: TokenV,
}

impl View for TokenAndPos {
    type V = TokenAndPosV;

    open spec fn view(&self) -> TokenAndPosV {
        TokenAndPosV { pos: self.0 as int, token: self.1@ }
    }
}

/// The model of a sequence of positioned tokens: each element viewed.
pub open spec fn view_tokens(ts: Seq<TokenAndPos>) -> Seq<TokenAndPosV> {
    Seq::new(ts.len(), |i: int| ts[i]@)
}

/// Viewing commutes with appending one positioned token.
pub proof fn lemma_view_tokens_push(ts: Seq<TokenAndPos>, t: TokenAndPos)
    ensures
        view_tokens(ts.push(t)) == view_tokens(ts).push(t@),
{
    assert(view_tokens(ts.push(t)) =~= view_tokens(ts).push(t@));
}

/// No token is both an operator and a value: the two predicate sets are
/// mutually exclusive over the whole variant set.
pub proof fn lemma_operator_value_exclusive(t: TokenV)
    ensures
        !(spec_is_operator(t) && spec_is_value(t)),
{
}

/// Precedence is defined for exactly the operator variants: requesting the
/// precedence of any non-operator fails.
pub proof fn lemma_precedence_defined_iff_operator(t: TokenV)
    ensures
        spec_operator_precedence(t) is Some <==> spec_is_operator(t),
{
}

/// The precedence tiers are strictly ordered: every multiplicative operator
/// binds tighter than every additive operator, which binds tighter than
/// every comparison operator.
pub proof fn lemma_precedence_ordering(mul: TokenV, add: TokenV, cmp: TokenV)
    requires
        mul == TokenV::Multiply || mul == TokenV::Divide,
        add == TokenV::Minus || add == TokenV::Plus,
        cmp == TokenV::Equals || cmp == TokenV::LessThan || cmp == TokenV::GreaterThan
            || cmp == TokenV::LessThanEqual || cmp == TokenV::GreaterThanEqual
            || cmp == TokenV::NotEqual,
    ensures
        spec_operator_precedence(mul) == Some(10u8),
        spec_operator_precedence(add) == Some(8u8),
        spec_operator_precedence(cmp) == Some(4u8),
        spec_operator_precedence(mul)->Some_0 > spec_operator_precedence(add)->Some_0,
        spec_operator_precedence(add)->Some_0 > spec_operator_precedence(cmp)->Some_0,
{
}

} // verus!
