//! The closed set of lexical categories and the keyword lookup table.

use vstd::prelude::*;

verus! {

/// Mathematical model of a token: the same variants as [`Token`], with the
/// text payloads abstracted to character sequences.
pub enum TokenV {
    Illegal,
    Eof,
    Ident(Seq<char>),
    Int(Seq<char>),
    Assign,
    Plus,
    Minus,
    Bang,
    Asterisk,
    Slash,
    Eq,
    NotEq,
    Comma,
    Semicolon,
    Lparen,
    Rparen,
    Lbrace,
    Rbrace,
    LessThen,
    GreaterThen,
    Function,
    Let,
    True,
    False,
    If,
    Else,
    Return,
}

/// An atomic lexical unit. `Ident` and `Int` carry their literal source
/// text; numeric literals are kept as digit text, never parsed to a number.
#[derive(Debug, PartialEq, Eq)]
pub enum Token {
    Illegal,
    Eof,
    Ident(String),
    Int(String),
    Assign,
    Plus,
    Minus,
    Bang,
    Asterisk,
    Slash,
    Eq,
    NotEq,
    Comma,
    Semicolon,
    Lparen,
    Rparen,
    Lbrace,
    Rbrace,
    LessThen,
    GreaterThen,
    Function,
    Let,
    True,
    False,
    If,
    Else,
    Return,
}

impl View for Token {
    type V = TokenV;

    open spec fn view(&self) -> TokenV {
        match self {
            Token::Illegal => TokenV::Illegal,
            Token::Eof => TokenV::Eof,
            Token::Ident(s) => TokenV::Ident(s@),
            Token::Int(s) => TokenV::Int(s@),
            Token::Assign => TokenV::Assign,
            Token::Plus => TokenV::Plus,
            Token::Minus => TokenV::Minus,
            Token::Bang => TokenV::Bang,
            Token::Asterisk => TokenV::Asterisk,
            Token::Slash => TokenV::Slash,
            Token::Eq => TokenV::Eq,
            Token::NotEq => TokenV::NotEq,
            Token::Comma => TokenV::Comma,
            Token::Semicolon => TokenV::Semicolon,
            Token::Lparen => TokenV::Lparen,
            Token::Rparen => TokenV::Rparen,
            Token::Lbrace => TokenV::Lbrace,
            Token::Rbrace => TokenV::Rbrace,
            Token::LessThen => TokenV::LessThen,
            Token::GreaterThen => TokenV::GreaterThen,
            Token::Function => TokenV::Function,
            Token::Let => TokenV::Let,
            Token::True => TokenV::True,
            Token::False => TokenV::False,
            Token::If => TokenV::If,
            Token::Else => TokenV::Else,
            Token::Return => TokenV::Return,
        }
    }
}

impl Clone for Token {
    fn clone(&self) -> (r: Self)
        ensures
            r == *self,
    {
        match self {
            Token::Illegal => Token::Illegal,
            Token::Eof => Token::Eof,
            Token::Ident(s) => Token::Ident(s.clone()),
            Token::Int(s) => Token::Int(s.clone()),
            Token::Assign => Token::Assign,
            Token::Plus => Token::Plus,
            Token::Minus => Token::Minus,
            Token::Bang => Token::Bang,
            Token::Asterisk => Token::Asterisk,
            Token::Slash => Token::Slash,
            Token::Eq => Token::Eq,
            Token::NotEq => Token::NotEq,
            Token::Comma => Token::Comma,
            Token::Semicolon => Token::Semicolon,
            Token::Lparen => Token::Lparen,
            Token::Rparen => Token::Rparen,
            Token::Lbrace => Token::Lbrace,
            Token::Rbrace => Token::Rbrace,
            Token::LessThen => Token::LessThen,
            Token::GreaterThen => Token::GreaterThen,
            Token::Function => Token::Function,
            Token::Let => Token::Let,
            Token::True => Token::True,
            Token::False => Token::False,
            Token::If => Token::If,
            Token::Else => Token::Else,
            Token::Return => Token::Return,
        }
    }
}

/// The keyword table: the text of a letter-run resolves to its dedicated
/// keyword token exactly when it equals one of the seven reserved words;
/// every other text becomes an identifier token carrying that exact text.
pub open spec fn spec_lookup_ident(s: Seq<char>) -> TokenV {
    if s == "fn"@ {
        TokenV::Function
    } else if s == "let"@ {
        TokenV::Let
    } else if s == "return"@ {
        TokenV::Return
    } else if s == "else"@ {
        TokenV::Else
    } else if s == "if"@ {
        TokenV::If
    } else if s == "true"@ {
        TokenV::True
    } else if s == "false"@ {
        TokenV::False
    } else {
        TokenV::Ident(s)
    }
}

/// True exactly of the seven reserved words.
pub open spec fn is_keyword(s: Seq<char>) -> bool {
    s == "fn"@ || s == "let"@ || s == "return"@ || s == "else"@ || s == "if"@ || s == "true"@
        || s == "false"@
}

/// The short printable name of a token, used in parser diagnostics.
pub open spec fn spec_describe(t: TokenV) -> Seq<char> {
    match t {
        TokenV::Illegal => "Illegal"@,
        TokenV::Eof => "Eof"@,
        TokenV::Ident(s) => "Ident("@ + s + ")"@,
        TokenV::Int(s) => "Int("@ + s + ")"@,
        TokenV::Assign => "Assign"@,
        TokenV::Plus => "Plus"@,
        TokenV::Minus => "Minus"@,
        TokenV::Bang => "Bang"@,
        TokenV::Asterisk => "Asterisk"@,
        TokenV::Slash => "Slash"@,
        TokenV::Eq => "Eq"@,
        TokenV::NotEq => "NotEq"@,
        TokenV::Comma => "Comma"@,
        TokenV::Semicolon => "Semicolon"@,
        TokenV::Lparen => "Lparen"@,
        TokenV::Rparen => "Rparen"@,
        TokenV::Lbrace => "Lbrace"@,
        TokenV::Rbrace => "Rbrace"@,
        TokenV::LessThen => "LessThen"@,
        TokenV::GreaterThen => "GreaterThen"@,
        TokenV::Function => "Function"@,
        TokenV::Let => "Let"@,
        TokenV::True => "True"@,
        TokenV::False => "False"@,
        TokenV::If => "If"@,
        TokenV::Else => "Else"@,
        TokenV::Return => "Return"@,
    }
}

/// Character-by-character string comparison, so that keyword lookup can be
/// stated over the views of its arguments.
fn str_eq(a: &str, b: &str) -> (r: bool)
    ensures
        r == (a@ == b@),
{
    let alen = a.unicode_len();
    let blen = b.unicode_len();
    if alen != blen {
        return false;
    }
    let mut i: usize = 0;
    while i < alen
        invariant
            0 <= i <= alen,
            alen == a@.len(),
            alen == b@.len(),
            forall|k: int| 0 <= k < i ==> a@[k] == b@[k],
        decreases alen - i,
    {
        if a.get_char(i) != b.get_char(i) {
            return false;
        }
        i = i + 1;
    }
    proof {
        assert(a@ =~= b@);
    }
    true
}

impl Token {
    /// Resolves the text of a letter-run against the keyword table.
    pub fn lookup_ident(ident: &str) -> (t: Token)
        ensures
            t@ == spec_lookup_ident(ident@),
    {
        if str_eq(ident, "fn") {
            Token::Function
        } else if str_eq(ident, "let") {
            Token::Let
        } else if str_eq(ident, "return") {
            Token::Return
        } else if str_eq(ident, "else") {
            Token::Else
        } else if str_eq(ident, "if") {
            Token::If
        } else if str_eq(ident, "true") {
            Token::True
        } else if str_eq(ident, "false") {
            Token::False
        } else {
            Token::Ident(String::from_str(ident))
        }
    }

    /// The short printable name of this token, as used in diagnostics.
    pub fn describe(&self) -> (r: String)
        ensures
            r@ == spec_describe(self@),
    {
        match self {
            Token::Illegal => String::from_str("Illegal"),
            Token::Eof => String::from_str("Eof"),
            Token::Ident(s) => {
                let mut r = String::from_str("Ident(");
                r.append(s.as_str());
                r.append(")");
                r
            },
            Token::Int(s) => {
                let mut r = String::from_str("Int(");
                r.append(s.as_str());
                r.append(")");
                r
            },
            Token::Assign => String::from_str("Assign"),
            Token::Plus => String::from_str("Plus"),
            Token::Minus => String::from_str("Minus"),
            Token::Bang => String::from_str("Bang"),
            Token::Asterisk => String::from_str("Asterisk"),
            Token::Slash => String::from_str("Slash"),
            Token::Eq => String::from_str("Eq"),
            Token::NotEq => String::from_str("NotEq"),
            Token::Comma => String::from_str("Comma"),
            Token::Semicolon => String::from_str("Semicolon"),
            Token::Lparen => String::from_str("Lparen"),
            Token::Rparen => String::from_str("Rparen"),
            Token::Lbrace => String::from_str("Lbrace"),
            Token::Rbrace => String::from_str("Rbrace"),
            Token::LessThen => String::from_str("LessThen"),
            Token::GreaterThen => String::from_str("GreaterThen"),
            Token::Function => String::from_str("Function"),
            Token::Let => String::from_str("Let"),
            Token::True => String::from_str("True"),
            Token::False => String::from_str("False"),
            Token::If => String::from_str("If"),
            Token::Else => String::from_str("Else"),
            Token::Return => String::from_str("Return"),
        }
    }
}

} // verus!
