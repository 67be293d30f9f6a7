//! Token-level types and the cursor of the character-level tokenizer. The
//! tokenizer itself is an external collaborator of the core: it produces a
//! flat token stream with source positions; the evaluator never reads
//! source text. Number tokens carry the bit pattern of their double value.

use vstd::prelude::*;

verus! {

/// One kind of token, with its payload where it has one.
pub enum TokenType {
    /// A number literal, as the bit pattern of its double value.
    Number(u64),
    Bool(bool),
    Str(Vec<char>),
    Null,
    Plus,
    PlusEqu,
    DPlus,
    Minus,
    DMinus,
    Multiply,
    Divide,
    Equal,
    EquEqu,
    Bang,
    NotEqu,
    Greater,
    Less,
    GreatEqu,
    LessEqu,
    BitAnd,
    And,
    BitOr,
    Or,
    Shl,
    Shr,
    OpenParen,
    CloseParen,
    OpenSquare,
    CloseSquare,
    OpenCurly,
    CloseCurly,
    Comma,
    Semi,
    Colon,
    DColon,
    Dot,
    DDot,
    ThinArrow,
    FatArrow,
    Let,
    Exit,
    Ident(Vec<char>),
    If,
    Els,
    ElsIf,
    While,
    For,
    Fn,
    Ret,
    Struct,
    Write,
    Import,
    As,
}

/// A source position: column and line, both starting at one.
#[derive(Clone, Copy, PartialEq, Eq, Structural)]
pub struct Loc {
    pub x: usize,
    pub y: usize,
}

/// One token with its position.
pub struct Token {
    pub token: TokenType,
    pub loc: Loc,
}

/// The tokenizer's cursor over the source text.
pub struct Lexer {
    pub curr_loc: Loc,
    pub text: Vec<char>,
    pub pos: usize,
}

impl Lexer {
    /// A cursor at the start of the text, at line one, column one.
    pub fn new(input: Vec<char>) -> (r: Lexer)
        ensures
            r.text@ == input@,
            r.pos == 0,
            r.curr_loc == (Loc { x: 1, y: 1 }),
    {
        Lexer { curr_loc: Loc { x: 1, y: 1 }, text: input, pos: 0 }
    }

    /// Steps past one character, advancing the column.
    pub fn next(&mut self)
        ensures
            final(self).curr_loc.x as int == if old(self).curr_loc.x < usize::MAX {
                old(self).curr_loc.x + 1
            } else {
                old(self).curr_loc.x as int
            },
            final(self).curr_loc.y == old(self).curr_loc.y,
            final(self).pos as int == if old(self).pos < old(self).text@.len() {
                old(self).pos + 1
            } else {
                old(self).pos as int
            },
            final(self).text@ == old(self).text@,
    {
        if self.curr_loc.x < usize::MAX {
            self.curr_loc.x = self.curr_loc.x + 1;
        }
        if self.pos < self.text.len() {
            self.pos = self.pos + 1;
        }
    }
}

/// Which phase a diagnostic comes from.
pub enum ErrorType {
    Lexing,
    Parsing,
}

/// The label of a diagnostic phase.
pub open spec fn error_label_v(e: ErrorType) -> Seq<char> {
    match e {
        ErrorType::Lexing => seq!['L', 'e', 'x', 'i', 'n', 'g'],
        ErrorType::Parsing => seq!['P', 'a', 'r', 's', 'i', 'n', 'g'],
    }
}

/// The decimal digits of a number.
pub open spec fn dec_chars_v(n: nat) -> Seq<char>
    decreases n,
{
    let d = seq![dec_digit_v(n % 10)];
    if n < 10 {
        d
    } else {
        dec_chars_v(n / 10) + d
    }
}

/// One decimal digit as a character.
pub open spec fn dec_digit_v(d: nat) -> char {
    if d == 0 {
        '0'
    } else if d == 1 {
        '1'
    } else if d == 2 {
        '2'
    } else if d == 3 {
        '3'
    } else if d == 4 {
        '4'
    } else if d == 5 {
        '5'
    } else if d == 6 {
        '6'
    } else if d == 7 {
        '7'
    } else if d == 8 {
        '8'
    } else {
        '9'
    }
}

/// Writes a number in decimal.
pub(crate) fn dec_chars(n: usize) -> (r: Vec<char>)
    ensures
        r@ == dec_chars_v(n as nat),
    decreases n,
{
    let d = n % 10;
    let c: char = if d == 0 {
        '0'
    } else if d == 1 {
        '1'
    } else if d == 2 {
        '2'
    } else if d == 3 {
        '3'
    } else if d == 4 {
        '4'
    } else if d == 5 {
        '5'
    } else if d == 6 {
        '6'
    } else if d == 7 {
        '7'
    } else if d == 8 {
        '8'
    } else {
        '9'
    };
    if n < 10 {
        let mut out: Vec<char> = Vec::new();
        out.push(c);
        proof {
            assert(out@ =~= dec_chars_v(n as nat));
        }
        out
    } else {
        let mut out = dec_chars(n / 10);
        out.push(c);
        proof {
            assert(out@ =~= dec_chars_v((n / 10) as nat).push(dec_digit_v((n % 10) as nat)));
            assert(dec_chars_v(n as nat) == dec_chars_v((n / 10) as nat) + seq![
                dec_digit_v((n % 10) as nat),
            ]);
            assert(out@ =~= dec_chars_v(n as nat));
        }
        out
    }
}

/// The text of a diagnostic: phase, message and position.
pub open spec fn error_message_v(msg: Seq<char>, loc: Loc, err: ErrorType) -> Seq<char> {
    error_label_v(err) + seq![' ', 'E', 'r', 'r', 'o', 'r', ':', '\n', '\t'] + msg + seq![
        ' ',
        'a',
        't',
        ' ',
        'l',
        'i',
        'n',
        'e',
        ' ',
    ] + dec_chars_v(loc.y as nat) + seq![':'] + dec_chars_v(loc.x as nat)
}

/// Formats diagnostics; printing them is the host's business.
pub struct Logger;

impl Logger {
    /// The full text of one diagnostic.
    pub fn error(msg: &Vec<char>, loc: Loc, err: ErrorType) -> (r: Vec<char>)
        ensures
            r@ == error_message_v(msg@, loc, err),
    {
        let mut out: Vec<char> = Vec::new();
        match err {
            ErrorType::Lexing => {
                out.push('L');
                out.push('e');
                out.push('x');
                out.push('i');
                out.push('n');
                out.push('g');
            },
            ErrorType::Parsing => {
                out.push('P');
                out.push('a');
                out.push('r');
                out.push('s');
                out.push('i');
                out.push('n');
                out.push('g');
            },
        }
        out.push(' ');
        out.push('E');
        out.push('r');
        out.push('r');
        out.push('o');
        out.push('r');
        out.push(':');
        out.push('\n');
        out.push('\t');
        crate::object::extend_chars(&mut out, msg);
        out.push(' ');
        out.push('a');
        out.push('t');
        out.push(' ');
        out.push('l');
        out.push('i');
        out.push('n');
        out.push('e');
        out.push(' ');
        let line = dec_chars(loc.y);
        crate::object::extend_chars(&mut out, &line);
        out.push(':');
        let col = dec_chars(loc.x);
        crate::object::extend_chars(&mut out, &col);
        proof {
            assert(out@ =~= error_message_v(msg@, loc, err));
        }
        out
    }
}

} // verus!
