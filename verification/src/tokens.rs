//! The token trees that a `view!` body is made of, and how they are written
//! back out as source text.
use vstd::prelude::*;

verus! {

/// The three kinds of brackets that delimit a group of tokens.
#[derive(Clone, Copy, PartialEq, Eq, Debug, Structural)]
pub enum Delimiter {
    Paren,
    Bracket,
    Brace,
}

/// The punctuation tokens that the view grammar gives a meaning to.
#[derive(Clone, Copy, PartialEq, Eq, Debug, Structural)]
pub enum Punct {
    /// `=`
    Eq,
    /// `<`
    Lt,
    /// `>`
    Gt,
    /// `|`
    Or,
    /// `@`
    At,
    /// `.`
    Dot,
    /// `,`
    Comma,
    /// `:`
    Colon,
    /// `::`
    ModSep,
    /// `=>`
    FatArrow,
    /// `#`
    Pound,
}

/// One token tree of a view.
#[derive(Debug)]
pub enum Tok {
    /// An identifier (keywords included), written as its name.
    Ident(String),
    /// One of the punctuation tokens above.
    Punct(Punct),
    /// A string literal: its value, whether it is a plain (cooked, not raw)
    /// literal, and its source text.
    Str { value: String, cooked: bool, text: String },
    /// Any other single token, given by its source text.
    Other(String),
    /// A delimited group of token trees.
    Group(Delimiter, Vec<Tok>),
}

pub open spec fn punct_text(p: Punct) -> Seq<char> {
    match p {
        Punct::Eq => seq!['='],
        Punct::Lt => seq!['<'],
        Punct::Gt => seq!['>'],
        Punct::Or => seq!['|'],
        Punct::At => seq!['@'],
        Punct::Dot => seq!['.'],
        Punct::Comma => seq![','],
        Punct::Colon => seq![':'],
        Punct::ModSep => seq![':', ':'],
        Punct::FatArrow => seq!['=', '>'],
        Punct::Pound => seq!['#'],
    }
}

pub open spec fn open_text(d: Delimiter) -> Seq<char> {
    match d {
        Delimiter::Paren => seq!['('],
        Delimiter::Bracket => seq!['['],
        Delimiter::Brace => seq!['{'],
    }
}

pub open spec fn close_text(d: Delimiter) -> Seq<char> {
    match d {
        Delimiter::Paren => seq![')'],
        Delimiter::Bracket => seq![']'],
        Delimiter::Brace => seq!['}'],
    }
}

/// Appending one piece of text to a token stream: a single space separates
/// it from what is already there, unless one of the two is empty.
pub open spec fn append_piece(buf: Seq<char>, piece: Seq<char>) -> Seq<char> {
    if buf.len() != 0 && piece.len() != 0 {
        buf.push(' ') + piece
    } else {
        buf + piece
    }
}

/// The text that a leaf token appends.
pub open spec fn leaf_text(t: Tok) -> Seq<char> {
    match t {
        Tok::Ident(name) => name@,
        Tok::Punct(p) => punct_text(p),
        Tok::Str { text, .. } => text@,
        Tok::Other(text) => text@,
        Tok::Group(d, _) => Seq::empty(),
    }
}

/// The token stream `buf` after the token tree `t` has been appended to it.
pub open spec fn render_tok(buf: Seq<char>, t: Tok) -> Seq<char>
    decreases t, 0int,
{
    match t {
        Tok::Group(d, inner) => append_piece(
            render_toks(append_piece(buf, open_text(d)), inner@, 0),
            close_text(d),
        ),
        _ => append_piece(buf, leaf_text(t)),
    }
}

/// The token stream `buf` after the token trees `s[i..]` have been appended.
pub open spec fn render_toks(buf: Seq<char>, s: Seq<Tok>, i: int) -> Seq<char>
    decreases s, s.len() - i,
{
    if 0 <= i < s.len() {
        render_toks(render_tok(buf, s[i]), s, i + 1)
    } else {
        buf
    }
}

pub open spec fn is_punct(t: Tok, p: Punct) -> bool {
    t matches Tok::Punct(q) && q == p
}

pub open spec fn is_ident(t: Tok, name: Seq<char>) -> bool {
    t matches Tok::Ident(n) && n@ == name
}

/// Appends one piece of text to a token stream.
pub fn push_piece(buf: &mut String, piece: &str)
    ensures
        final(buf)@ == append_piece(old(buf)@, piece@),
{
    if !buf.as_str().is_empty() && !piece.is_empty() {
        let space = " ";
        proof {
            reveal_strlit(" ");
        }
        buf.append(space);
    }
    buf.append(piece);
}

pub fn punct_str(p: Punct) -> (r: &'static str)
    ensures
        r@ == punct_text(p),
{
    match p {
        Punct::Eq => {
            proof { reveal_strlit("="); }
            "="
        },
        Punct::Lt => {
            proof { reveal_strlit("<"); }
            "<"
        },
        Punct::Gt => {
            proof { reveal_strlit(">"); }
            ">"
        },
        Punct::Or => {
            proof { reveal_strlit("|"); }
            "|"
        },
        Punct::At => {
            proof { reveal_strlit("@"); }
            "@"
        },
        Punct::Dot => {
            proof { reveal_strlit("."); }
            "."
        },
        Punct::Comma => {
            proof { reveal_strlit(","); }
            ","
        },
        Punct::Colon => {
            proof { reveal_strlit(":"); }
            ":"
        },
        Punct::ModSep => {
            proof { reveal_strlit("::"); }
            "::"
        },
        Punct::FatArrow => {
            proof { reveal_strlit("=>"); }
            "=>"
        },
        Punct::Pound => {
            proof { reveal_strlit("#"); }
            "#"
        },
    }
}

fn open_str(d: Delimiter) -> (r: &'static str)
    ensures
        r@ == open_text(d),
{
    match d {
        Delimiter::Paren => {
            proof { reveal_strlit("("); }
            "("
        },
        Delimiter::Bracket => {
            proof { reveal_strlit("["); }
            "["
        },
        Delimiter::Brace => {
            proof { reveal_strlit("{"); }
            "{"
        },
    }
}

fn close_str(d: Delimiter) -> (r: &'static str)
    ensures
        r@ == close_text(d),
{
    match d {
        Delimiter::Paren => {
            proof { reveal_strlit(")"); }
            ")"
        },
        Delimiter::Bracket => {
            proof { reveal_strlit("]"); }
            "]"
        },
        Delimiter::Brace => {
            proof { reveal_strlit("}"); }
            "}"
        },
    }
}

/// Appends the token tree `t` to the token stream `buf`.
pub fn render_into(buf: &mut String, t: &Tok)
    ensures
        final(buf)@ == render_tok(old(buf)@, *t),
    decreases *t, 0int,
{
    match t {
        Tok::Ident(name) => push_piece(buf, name.as_str()),
        Tok::Punct(p) => push_piece(buf, punct_str(*p)),
        Tok::Str { text, .. } => push_piece(buf, text.as_str()),
        Tok::Other(text) => push_piece(buf, text.as_str()),
        Tok::Group(d, inner) => {
            push_piece(buf, open_str(*d));
            render_all_into(buf, inner, 0);
            push_piece(buf, close_str(*d));
        },
    }
}

/// Appends the token trees `v[i..]` to the token stream `buf`.
pub fn render_all_into(buf: &mut String, v: &Vec<Tok>, i: usize)
    requires
        i <= v@.len(),
    ensures
        final(buf)@ == render_toks(old(buf)@, v@, i as int),
    decreases v@, v@.len() - i,
{
    if i < v.len() {
        render_into(buf, &v[i]);
        render_all_into(buf, v, i + 1);
    }
}

/// Whether the string `s` holds exactly the text of the literal `lit`.
pub fn text_is(s: &String, lit: &str) -> (b: bool)
    ensures
        b == (s@ == lit@),
{
    let other = String::from_str(lit);
    *s == other
}

/// Whether `t` is the punctuation token `p`.
pub fn tok_is_punct(t: &Tok, p: Punct) -> (b: bool)
    ensures
        b == is_punct(*t, p),
{
    match t {
        Tok::Punct(q) => *q == p,
        _ => false,
    }
}

} // verus!
