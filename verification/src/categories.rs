//! Option categories: their data, and the grammar of the `categories(..)`
//! attribute.
use vstd::prelude::*;
use crate::error::{ErrorKind, ParseError, Place};
use crate::grammar::{
    braces_error, comma_error, comma_at, expect_comma, expect_lit, first_of, first_place, group_at,
    group_of, is_comma, join, leftover, leftover_at, lemma_join_assoc, lemma_join_empty,
    lemma_join_identity, place_at, place_of, spec_lit,
};
use crate::options::Concat;
use crate::tokens::{Delim, StrLit, TokenTree};

verus! {

/// A category into which options of the second version can be sorted.
pub struct CoreOptionCategory {
    pub key: StrLit,
    pub desc: StrLit,
    pub info: StrLit,
}

/// Reading a category from the contents `s` of its group: `key, desc, info`
/// with an optional trailing comma. What follows is left unread.
pub open spec fn spec_category(s: Seq<TokenTree>, lits: Seq<Option<String>>, end: Place) -> Result<(CoreOptionCategory, Option<Place>), ParseError> {
    match spec_lit(s, lits, end, 0) {
        Err(e) => Err(e),
        Ok(key) => if !is_comma(s, 1) {
            Err(comma_error(s, end, 1))
        } else {
            match spec_lit(s, lits, end, 2) {
                Err(e) => Err(e),
                Ok(desc) => if !is_comma(s, 3) {
                    Err(comma_error(s, end, 3))
                } else {
                    match spec_lit(s, lits, end, 4) {
                        Err(e) => Err(e),
                        Ok(info) => if 5 < s.len() && !is_comma(s, 5) {
                            Err(comma_error(s, end, 5))
                        } else {
                            Ok((CoreOptionCategory { key, desc, info }, leftover(s, 6)))
                        },
                    }
                },
            }
        },
    }
}

/// Reading the category written as the group at position `i`.
pub open spec fn spec_category_at(s: Seq<TokenTree>, lits: Seq<Option<String>>, end: Place, i: int) -> Result<(CoreOptionCategory, Option<Place>), ParseError> {
    match group_at(s, i, Delim::Brace) {
        None => Err(braces_error(s, end, i)),
        Some((c, gid)) => spec_category(c, lits, Place::EndOfGroup(gid)),
    }
}

/// Reading the categories from position `i` of the contents of the
/// parentheses: category groups separated by commas, with an optional trailing
/// comma.
pub open spec fn spec_categories(s: Seq<TokenTree>, lits: Seq<Option<String>>, end: Place, i: int) -> Result<(Seq<CoreOptionCategory>, Option<Place>), ParseError>
    decreases s.len() - i,
{
    if i < 0 || i >= s.len() {
        Ok((Seq::empty(), None))
    } else {
        match spec_category_at(s, lits, end, i) {
            Err(e) => Err(e),
            Ok((c, u)) => if i + 1 < s.len() && !is_comma(s, i + 1) {
                Err(comma_error(s, end, i + 1))
            } else {
                let n: int = if i + 1 < s.len() { i + 2 } else { i + 1 };
                join(seq![c], u, spec_categories(s, lits, end, n))
            },
        }
    }
}

/// Reading categories from the tokens `t`: a parenthesized group of
/// categories, which is the first token; the tokens after it are left to the
/// caller. The result also holds the first token left unread inside a group.
pub open spec fn spec_read_categories(t: Seq<TokenTree>, lits: Seq<Option<String>>) -> Result<(Seq<CoreOptionCategory>, Option<Place>), ParseError> {
    match group_at(t, 0, Delim::Paren) {
        None => Err(ParseError { kind: ErrorKind::ExpectedParens, place: place_at(t, Place::EndOfInput, 0) }),
        Some((c, gid)) => spec_categories(c, lits, Place::EndOfGroup(gid), 0),
    }
}

/// What a `categories` attribute whose tokens are `t` declares: the
/// categories read from `t`, where nothing follows the parentheses and no
/// token is left unread in any group; the first such token is reported
/// otherwise.
pub open spec fn spec_parse_categories(t: Seq<TokenTree>, lits: Seq<Option<String>>) -> Result<Seq<CoreOptionCategory>, ParseError> {
    match spec_read_categories(t, lits) {
        Err(e) => Err(e),
        Ok((cs, u)) => match first_of(u, leftover(t, 1)) {
            Some(p) => Err(ParseError { kind: ErrorKind::UnexpectedToken, place: p }),
            None => Ok(cs),
        },
    }
}

impl CoreOptionCategory {
    /// Reads a category from the contents `s` of its group; the result also
    /// holds the first token left unread.
    pub fn parse(s: &Vec<TokenTree>, lits: &Vec<Option<String>>, end: Place) -> (res: Result<(CoreOptionCategory, Option<Place>), ParseError>)
        ensures
            res == spec_category(s@, lits@, end),
    {
        let key = expect_lit(s, lits, end, 0)?;
        expect_comma(s, end, 1)?;
        let desc = expect_lit(s, lits, end, 2)?;
        expect_comma(s, end, 3)?;
        let info = expect_lit(s, lits, end, 4)?;
        if 5 < s.len() {
            expect_comma(s, end, 5)?;
        }
        Ok((CoreOptionCategory { key, desc, info }, leftover_at(s, 6)))
    }
}

/// The categories that one `categories` attribute declares.
pub struct CoreOptionCategories(pub Vec<CoreOptionCategory>);

impl CoreOptionCategories {
    /// Reads categories from `t`: the parenthesized group that is its first
    /// token. The result holds the categories, the first token left unread
    /// inside a group, and the position in `t` of the first token left to the
    /// caller. `lits` gives the values of the literals (see
    /// [`crate::tokens::decode_literals`]).
    pub fn parse(t: &Vec<TokenTree>, lits: &Vec<Option<String>>) -> (res: Result<(CoreOptionCategories, Option<Place>, usize), ParseError>)
        ensures
            match res {
                Ok((c, u, next)) => {
                    &&& spec_read_categories(t@, lits@) == Ok::<(Seq<CoreOptionCategory>, Option<Place>), ParseError>((c.0@, u))
                    &&& next == 1
                },
                Err(e) => spec_read_categories(t@, lits@) == Err::<(Seq<CoreOptionCategory>, Option<Place>), ParseError>(e),
            },
    {
        let (s, gid) = match group_of(t, 0, Delim::Paren) {
            Some(g) => g,
            None => {
                return Err(ParseError { kind: ErrorKind::ExpectedParens, place: place_of(t, Place::EndOfInput, 0) });
            },
        };
        let end = Place::EndOfGroup(gid);
        let mut out: Vec<CoreOptionCategory> = Vec::new();
        let mut u: Option<Place> = None;
        let mut i: usize = 0;
        proof {
            lemma_join_identity(spec_categories(s@, lits@, end, 0));
        }
        while i < s.len()
            invariant
                group_at(t@, 0, Delim::Paren) == Some((s@, gid)),
                end == Place::EndOfGroup(gid),
                i <= s.len(),
                spec_categories(s@, lits@, end, 0) == join(out@, u, spec_categories(s@, lits@, end, i as int)),
            decreases s.len() - i,
        {
            let (c, cgid) = match group_of(s, i, Delim::Brace) {
                Some(g) => g,
                None => {
                    return Err(ParseError { kind: ErrorKind::ExpectedBraces, place: place_of(s, end, i) });
                },
            };
            let (category, u1) = CoreOptionCategory::parse(c, lits, Place::EndOfGroup(cgid))?;
            if i + 1 < s.len() && !comma_at(s, i + 1) {
                return Err(ParseError { kind: ErrorKind::ExpectedComma, place: place_of(s, end, i + 1) });
            }
            let n: usize = if i + 1 < s.len() { i + 2 } else { i + 1 };
            proof {
                lemma_join_assoc(out@, u, category, u1, spec_categories(s@, lits@, end, n as int));
            }
            out.push(category);
            u = first_place(u, u1);
            i = n;
        }
        proof {
            lemma_join_empty(out@, u);
        }
        Ok((CoreOptionCategories(out), u, 1))
    }

    /// Reads a `categories` attribute whose tokens are `t`: the categories,
    /// where nothing follows the parentheses and no token is left unread inside
    /// a group; an `UnexpectedToken` error at the first such token otherwise.
    pub fn parse_attribute(t: &Vec<TokenTree>, lits: &Vec<Option<String>>) -> (res: Result<CoreOptionCategories, ParseError>)
        ensures
            match res {
                Ok(c) => spec_parse_categories(t@, lits@) == Ok::<Seq<CoreOptionCategory>, ParseError>(c.0@),
                Err(e) => spec_parse_categories(t@, lits@) == Err::<Seq<CoreOptionCategory>, ParseError>(e),
            },
    {
        let (categories, u, next) = CoreOptionCategories::parse(t, lits)?;
        match first_place(u, leftover_at(t, next)) {
            Some(p) => Err(ParseError { kind: ErrorKind::UnexpectedToken, place: p }),
            None => Ok(categories),
        }
    }
}

impl Concat<CoreOptionCategories> for Vec<CoreOptionCategories> {
    /// All categories of all the attributes, in order.
    fn concat(self) -> (res: CoreOptionCategories)
        ensures
            res.0@ == self@.map_values(|c: CoreOptionCategories| c.0@).flatten(),
    {
        let ghost parts = self@.map_values(|c: CoreOptionCategories| c.0@);
        let mut all: Vec<CoreOptionCategory> = Vec::new();
        let mut rest = self;
        let mut taken: usize = 0;
        let n: usize = rest.len();
        while rest.len() > 0
            invariant
                taken + rest.len() == n,
                n == parts.len(),
                forall|k: int| 0 <= k < rest.len() ==> #[trigger] rest@[k].0@ == parts[taken + k],
                all@ == parts.take(taken as int).flatten_alt(),
            decreases rest.len(),
        {
            let ghost rest_before = rest@;
            let part = rest.remove(0);
            let mut items = part.0;
            let ghost all_before = all@;
            all.append(&mut items);
            proof {
                assert(part == rest_before[0]);
                assert(parts.take(taken as int + 1).drop_last() =~= parts.take(taken as int));
                assert forall|k: int| 0 <= k < rest.len() implies #[trigger] rest@[k].0@ == parts[taken + 1 + k] by {
                    assert(rest@[k] == rest_before[k + 1]);
                }
            }
            taken = taken + 1;
        }
        proof {
            assert(parts.take(n as int) =~= parts);
            parts.lemma_flatten_and_flatten_alt_are_equivalent();
        }
        CoreOptionCategories(all)
    }
}

} // verus!
