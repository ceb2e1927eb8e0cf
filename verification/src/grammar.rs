//! The grammars of the `options(..)` and `categories(..)` attributes.
//!
//! Each parser reads a stream of token trees the way `syn` reads it: tokens
//! are consumed left to right, the first error ends the parse, and a token that
//! is left unread inside a group is remembered and reported once the whole
//! attribute has been read without error.
use vstd::prelude::*;
use crate::error::{ErrorKind, ParseError, Place};
use crate::tokens::{Delim, StrLit, TokenTree};

verus! {

// ---------------------------------------------------------------------------
// Reading single tokens
// ---------------------------------------------------------------------------

/// The place of position `i` of a stream whose end is `end`.
pub open spec fn place_at(s: Seq<TokenTree>, end: Place, i: int) -> Place {
    if 0 <= i < s.len() {
        Place::Token(s[i].spec_id())
    } else {
        end
    }
}

/// The token left unread at position `i`, if any.
pub open spec fn leftover(s: Seq<TokenTree>, i: int) -> Option<Place> {
    if 0 <= i < s.len() {
        Some(Place::Token(s[i].spec_id()))
    } else {
        None
    }
}

/// The earlier of two records of a left-over token.
pub open spec fn first_of(a: Option<Place>, b: Option<Place>) -> Option<Place> {
    if a is Some {
        a
    } else {
        b
    }
}

/// The string literal at position `i`, if there is one.
pub open spec fn str_at(s: Seq<TokenTree>, lits: Seq<Option<String>>, i: int) -> Option<StrLit> {
    if 0 <= i < s.len() {
        match s[i] {
            TokenTree::Literal { id, index } => if index < lits.len() {
                match lits[index as int] {
                    Some(v) => Some(StrLit { id, value: v }),
                    None => None,
                }
            } else {
                None
            },
            _ => None,
        }
    } else {
        None
    }
}

/// Reading a string literal at position `i`.
pub open spec fn spec_lit(s: Seq<TokenTree>, lits: Seq<Option<String>>, end: Place, i: int) -> Result<StrLit, ParseError> {
    match str_at(s, lits, i) {
        Some(l) => Ok(l),
        None => Err(ParseError { kind: ErrorKind::ExpectedStrLit, place: place_at(s, end, i) }),
    }
}

/// Whether position `i` holds a comma.
pub open spec fn is_comma(s: Seq<TokenTree>, i: int) -> bool {
    0 <= i < s.len() && match s[i] {
        TokenTree::Punct { ch, .. } => ch == ',',
        _ => false,
    }
}

pub open spec fn comma_error(s: Seq<TokenTree>, end: Place, i: int) -> ParseError {
    ParseError { kind: ErrorKind::ExpectedComma, place: place_at(s, end, i) }
}

pub open spec fn braces_error(s: Seq<TokenTree>, end: Place, i: int) -> ParseError {
    ParseError { kind: ErrorKind::ExpectedBraces, place: place_at(s, end, i) }
}

/// The contents and id of the group delimited by `d` at position `i`, if any.
pub open spec fn group_at(s: Seq<TokenTree>, i: int, d: Delim) -> Option<(Seq<TokenTree>, usize)> {
    if 0 <= i < s.len() {
        match s[i] {
            TokenTree::Group { id, delim, stream } => if delim == d {
                Some((stream@, id))
            } else {
                None
            },
            _ => None,
        }
    } else {
        None
    }
}

/// Appends what a parse of the rest of a list gives to what was read before it.
pub open spec fn join<T>(out: Seq<T>, u: Option<Place>, r: Result<(Seq<T>, Option<Place>), ParseError>) -> Result<(Seq<T>, Option<Place>), ParseError> {
    match r {
        Ok((vs, u2)) => Ok((out + vs, first_of(u, u2))),
        Err(e) => Err(e),
    }
}

pub proof fn lemma_join_assoc<T>(out: Seq<T>, u: Option<Place>, v: T, u1: Option<Place>, r: Result<(Seq<T>, Option<Place>), ParseError>)
    ensures
        join(out, u, join(seq![v], u1, r)) == join(out.push(v), first_of(u, u1), r),
{
    if let Ok((vs, u2)) = r {
        assert(out + (seq![v] + vs) =~= out.push(v) + vs);
    }
}

pub proof fn lemma_join_identity<T>(r: Result<(Seq<T>, Option<Place>), ParseError>)
    ensures
        join(Seq::<T>::empty(), None, r) == r,
{
    if let Ok((vs, u2)) = r {
        assert(Seq::<T>::empty() + vs =~= vs);
    }
}

pub proof fn lemma_join_empty<T>(out: Seq<T>, u: Option<Place>)
    ensures
        join(out, u, Ok((Seq::<T>::empty(), None))) == Ok::<(Seq<T>, Option<Place>), ParseError>((out, u)),
{
    assert(out + Seq::<T>::empty() =~= out);
}

pub(crate) fn place_of(s: &Vec<TokenTree>, end: Place, i: usize) -> (res: Place)
    ensures
        res == place_at(s@, end, i as int),
{
    if i < s.len() {
        Place::Token(s[i].id())
    } else {
        end
    }
}

pub(crate) fn leftover_at(s: &Vec<TokenTree>, i: usize) -> (res: Option<Place>)
    ensures
        res == leftover(s@, i as int),
{
    if i < s.len() {
        Some(Place::Token(s[i].id()))
    } else {
        None
    }
}

pub(crate) fn first_place(a: Option<Place>, b: Option<Place>) -> (res: Option<Place>)
    ensures
        res == first_of(a, b),
{
    if a.is_some() {
        a
    } else {
        b
    }
}

pub(crate) fn peek_str(s: &Vec<TokenTree>, lits: &Vec<Option<String>>, i: usize) -> (res: Option<StrLit>)
    ensures
        res == str_at(s@, lits@, i as int),
{
    if i < s.len() {
        match &s[i] {
            TokenTree::Literal { id, index } => if *index < lits.len() {
                match &lits[*index] {
                    Some(v) => Some(StrLit { id: *id, value: v.clone() }),
                    None => None,
                }
            } else {
                None
            },
            _ => None,
        }
    } else {
        None
    }
}

pub(crate) fn expect_lit(s: &Vec<TokenTree>, lits: &Vec<Option<String>>, end: Place, i: usize) -> (res: Result<StrLit, ParseError>)
    ensures
        res == spec_lit(s@, lits@, end, i as int),
{
    match peek_str(s, lits, i) {
        Some(l) => Ok(l),
        None => Err(ParseError { kind: ErrorKind::ExpectedStrLit, place: place_of(s, end, i) }),
    }
}

pub(crate) fn comma_at(s: &Vec<TokenTree>, i: usize) -> (res: bool)
    ensures
        res == is_comma(s@, i as int),
{
    if i < s.len() {
        match &s[i] {
            TokenTree::Punct { ch, .. } => *ch == ',',
            _ => false,
        }
    } else {
        false
    }
}

pub(crate) fn expect_comma(s: &Vec<TokenTree>, end: Place, i: usize) -> (res: Result<(), ParseError>)
    ensures
        res is Ok <==> is_comma(s@, i as int),
        res matches Err(e) ==> e == comma_error(s@, end, i as int),
{
    if comma_at(s, i) {
        Ok(())
    } else {
        Err(ParseError { kind: ErrorKind::ExpectedComma, place: place_of(s, end, i) })
    }
}

pub(crate) fn group_of(s: &Vec<TokenTree>, i: usize, d: Delim) -> (res: Option<(&Vec<TokenTree>, usize)>)
    ensures
        match res {
            Some((c, id)) => group_at(s@, i as int, d) == Some((c@, id)),
            None => group_at(s@, i as int, d) is None,
        },
{
    if i < s.len() {
        match &s[i] {
            TokenTree::Group { id, delim, stream } => if *delim == d {
                Some((stream, *id))
            } else {
                None
            },
            _ => None,
        }
    } else {
        None
    }
}

} // verus!
