//! The token model that the attribute grammars read, and the decoding of
//! literal tokens into string values.
use vstd::prelude::*;
use crate::literal::{ascii_suffix, is_str_literal_text, str_literal_text, string_value};

verus! {

/// The delimiter of a token group. Invisible groups do not occur: their
/// contents stand in the stream in their place, as a parser walks through them.
#[derive(Clone, Copy, Debug, PartialEq, Eq, Structural)]
pub enum Delim {
    Paren,
    Brace,
    Bracket,
}

/// A token tree of an attribute's input. Every token carries an `id`, by which
/// its span is found again; a literal also carries the index of its source text
/// in the table of literals that accompanies the tokens.
pub enum TokenTree {
    Group { id: usize, delim: Delim, stream: Vec<TokenTree> },
    Ident { id: usize },
    Punct { id: usize, ch: char },
    Literal { id: usize, index: usize },
}

impl TokenTree {
    pub open spec fn spec_id(&self) -> usize {
        match self {
            TokenTree::Group { id, .. } => *id,
            TokenTree::Ident { id } => *id,
            TokenTree::Punct { id, .. } => *id,
            TokenTree::Literal { id, .. } => *id,
        }
    }

    /// The id of the token.
    pub fn id(&self) -> (res: usize)
        ensures
            res == self.spec_id(),
    {
        match self {
            TokenTree::Group { id, .. } => *id,
            TokenTree::Ident { id } => *id,
            TokenTree::Punct { id, .. } => *id,
            TokenTree::Literal { id, .. } => *id,
        }
    }
}

/// A string literal of the input: the id of its token and its value.
pub struct StrLit {
    pub id: usize,
    pub value: String,
}

impl StrLit {
    /// A copy of the literal.
    pub fn copy(&self) -> (res: StrLit)
        ensures
            res == *self,
    {
        StrLit { id: self.id, value: self.value.clone() }
    }
}

/// Whether syn reads the text `repr` as one string literal and nothing after
/// it. On the texts of [`str_literal_text`] that is so wherever the suffix is
/// ASCII; with letters beyond ASCII in the suffix it turns on Unicode's table
/// of identifier characters, which is not stated here.
pub uninterp spec fn str_literal_read(repr: Seq<char>) -> bool;

/// Reads `repr` as a string literal with `syn`'s `LitStr` (through
/// `syn::parse_str`) and returns its value, or `None` where syn does not read
/// one string literal there. It is handed only the texts of
/// [`str_literal_text`]: on a literal that syn 1 cannot classify (a C string
/// such as `c"abc"`) or on a malformed escape, syn panics. The value is stated:
/// escapes resolved as [`string_value`] says. Whether syn reads a text whose
/// suffix goes beyond ASCII is left to the name `str_literal_read`.
#[verifier::external_body]
fn lit_str_value(repr: &str) -> (res: Option<String>)
    requires
        str_literal_text(repr@),
    ensures
        res is Some <==> str_literal_read(repr@),
        ascii_suffix(repr@) ==> res is Some,
        res matches Some(v) ==> v@ == string_value(repr@),
{
    match syn::parse_str::<syn::LitStr>(repr) {
        Ok(lit) => Some(lit.value()),
        Err(_) => None,
    }
}

/// What the table of literals gives for the literal with source text `repr`:
/// the value of a string literal of the form that the library decodes, where
/// syn reads it (always, with an ASCII suffix), and `None` for any other text.
pub open spec fn decoded_as(repr: String, value: Option<String>) -> bool {
    if str_literal_text(repr@) && (ascii_suffix(repr@) || str_literal_read(repr@)) {
        value matches Some(s) && s@ == string_value(repr@)
    } else {
        value is None
    }
}

/// Decodes the source texts of the literals: entry `i` of the result is the
/// value of literal `i` where it is a string literal of the form of
/// [`str_literal_text`], and `None` otherwise.
pub fn decode_literals(reprs: &Vec<String>) -> (values: Vec<Option<String>>)
    ensures
        values.len() == reprs.len(),
        forall|i: int| 0 <= i < reprs.len() ==> #[trigger] decoded_as(reprs@[i], values@[i]),
{
    let mut values: Vec<Option<String>> = Vec::new();
    let mut i: usize = 0;
    while i < reprs.len()
        invariant
            i <= reprs.len(),
            values.len() == i,
            forall|j: int| 0 <= j < i ==> #[trigger] decoded_as(reprs@[j], values@[j]),
        decreases reprs.len() - i,
    {
        let text = reprs[i].as_str();
        let v = if is_str_literal_text(text) {
            lit_str_value(text)
        } else {
            None
        };
        values.push(v);
        i = i + 1;
    }
    values
}

} // verus!
