//! The derive macro's logic: which attributes it reads, what it makes of
//! them, and which error it reports.
use vstd::prelude::*;
use vstd::string::StringExecFns;
use crate::categories::{spec_parse_categories, CoreOptionCategories, CoreOptionCategory};
use crate::error::ParseError;
use crate::options::{spec_parse_options, Concat, CoreOptionV2Model, CoreOptions};
use crate::tables::{core_option_tables, tables, CoreOptionTables, CoreOptionTablesModel};
use crate::tokens::{decode_literals, decoded_as, TokenTree};

verus! {

/// A segment of an attribute's path: its identifier as written (a raw
/// identifier with its `r#`), and whether it carries generic arguments.
pub struct PathSegment {
    pub ident: String,
    pub has_arguments: bool,
}

/// The path of an attribute.
pub struct AttrPath {
    pub leading_colon: bool,
    pub segments: Vec<PathSegment>,
}

/// An attribute of the deriving struct: its path and the tokens after it.
pub struct Attribute {
    pub path: AttrPath,
    pub tokens: Vec<TokenTree>,
}

/// A path is the identifier `name` when it has no leading `::`, one segment,
/// no generic arguments, and that segment's identifier is `name`.
pub open spec fn is_ident(path: AttrPath, name: Seq<char>) -> bool {
    &&& !path.leading_colon
    &&& path.segments.len() == 1
    &&& !path.segments@[0].has_arguments
    &&& path.segments@[0].ident@ == name
}

/// Whether `path` is the identifier `name`.
pub fn path_is_ident(path: &AttrPath, name: &str) -> (res: bool)
    ensures
        res == is_ident(*path, name@),
{
    if path.leading_colon || path.segments.len() != 1 || path.segments[0].has_arguments {
        false
    } else {
        let wanted = String::from_str(name);
        path.segments[0].ident == wanted
    }
}

pub open spec fn options_name() -> Seq<char> {
    seq!['o', 'p', 't', 'i', 'o', 'n', 's']
}

pub open spec fn categories_name() -> Seq<char> {
    seq!['c', 'a', 't', 'e', 'g', 'o', 'r', 'i', 'e', 's']
}

/// The options that the `options` attributes from position `i` on declare,
/// in order; or the error of the first of them that does not read.
pub open spec fn spec_collect_options(attrs: Seq<Attribute>, lits: Seq<Option<String>>, i: int) -> Result<Seq<CoreOptionV2Model>, ParseError>
    decreases attrs.len() - i,
{
    if i < 0 || i >= attrs.len() {
        Ok(Seq::empty())
    } else if is_ident(attrs[i].path, options_name()) {
        match spec_parse_options(attrs[i].tokens@, lits) {
            Err(e) => Err(e),
            Ok(os) => match spec_collect_options(attrs, lits, i + 1) {
                Err(e) => Err(e),
                Ok(rest) => Ok(os + rest),
            },
        }
    } else {
        spec_collect_options(attrs, lits, i + 1)
    }
}

/// The categories that the `categories` attributes from position `i` on
/// declare, in order; or the error of the first of them that does not read.
pub open spec fn spec_collect_categories(attrs: Seq<Attribute>, lits: Seq<Option<String>>, i: int) -> Result<Seq<CoreOptionCategory>, ParseError>
    decreases attrs.len() - i,
{
    if i < 0 || i >= attrs.len() {
        Ok(Seq::empty())
    } else if is_ident(attrs[i].path, categories_name()) {
        match spec_parse_categories(attrs[i].tokens@, lits) {
            Err(e) => Err(e),
            Ok(cs) => match spec_collect_categories(attrs, lits, i + 1) {
                Err(e) => Err(e),
                Ok(rest) => Ok(cs + rest),
            },
        }
    } else {
        spec_collect_categories(attrs, lits, i + 1)
    }
}

/// What the derive macro emits for a struct with the given attributes: the
/// tables of all declared options and categories, or the first error, the
/// errors of `options` attributes before those of `categories` attributes.
pub open spec fn spec_derive(attrs: Seq<Attribute>, lits: Seq<Option<String>>) -> Result<CoreOptionTablesModel, ParseError> {
    match spec_collect_options(attrs, lits, 0) {
        Err(e) => Err(e),
        Ok(os) => match spec_collect_categories(attrs, lits, 0) {
            Err(e) => Err(e),
            Ok(cs) => Ok(tables(os, cs)),
        },
    }
}

/// `lits` is a decoding of the literal table `reprs`.
pub open spec fn decoded(reprs: Seq<String>, lits: Seq<Option<String>>) -> bool {
    &&& lits.len() == reprs.len()
    &&& forall|i: int| 0 <= i < reprs.len() ==> #[trigger] decoded_as(reprs[i], lits[i])
}

pub open spec fn prepend<T>(acc: Seq<T>, r: Result<Seq<T>, ParseError>) -> Result<Seq<T>, ParseError> {
    match r {
        Ok(rest) => Ok(acc + rest),
        Err(e) => Err(e),
    }
}

/// Reads all `options` attributes.
pub fn collect_options(attrs: &Vec<Attribute>, lits: &Vec<Option<String>>) -> (res: Result<CoreOptions, ParseError>)
    ensures
        match res {
            Ok(o) => spec_collect_options(attrs@, lits@, 0) == Ok::<Seq<CoreOptionV2Model>, ParseError>(o@),
            Err(e) => spec_collect_options(attrs@, lits@, 0) == Err::<Seq<CoreOptionV2Model>, ParseError>(e),
        },
{
    let mut parts: Vec<CoreOptions> = Vec::new();
    let mut i: usize = 0;
    proof {
        assert(prepend(Seq::<CoreOptionV2Model>::empty(), spec_collect_options(attrs@, lits@, 0)) == spec_collect_options(attrs@, lits@, 0)) by {
            if let Ok(r) = spec_collect_options(attrs@, lits@, 0) {
                assert(Seq::<CoreOptionV2Model>::empty() + r =~= r);
            }
        }
    }
    while i < attrs.len()
        invariant
            i <= attrs.len(),
            spec_collect_options(attrs@, lits@, 0) == prepend(parts@.map_values(|o: CoreOptions| o@).flatten(), spec_collect_options(attrs@, lits@, i as int)),
        decreases attrs.len() - i,
    {
        let attr = &attrs[i];
        proof {
            reveal_strlit("options");
            assert("options"@ =~= options_name());
        }
        if path_is_ident(&attr.path, "options") {
            let part = CoreOptions::parse_attribute(&attr.tokens, lits)?;
            let ghost before = parts@.map_values(|o: CoreOptions| o@);
            parts.push(part);
            proof {
                let after = parts@.map_values(|o: CoreOptions| o@);
                assert(after =~= before.push(part@));
                lemma_flatten_push(before, part@);
                if let Ok(rest) = spec_collect_options(attrs@, lits@, i + 1) {
                    assert(before.flatten() + (part@ + rest) =~= (before.flatten() + part@) + rest);
                }
            }
        }
        i = i + 1;
    }
    let all = parts.concat();
    proof {
        assert(all@ + Seq::<CoreOptionV2Model>::empty() =~= all@);
    }
    Ok(all)
}

/// Flattening after appending a part appends the part.
pub proof fn lemma_flatten_push<T>(parts: Seq<Seq<T>>, part: Seq<T>)
    ensures
        parts.push(part).flatten() == parts.flatten() + part,
{
    parts.lemma_flatten_and_flatten_alt_are_equivalent();
    parts.push(part).lemma_flatten_and_flatten_alt_are_equivalent();
    assert(parts.push(part).drop_last() =~= parts);
}

/// Reads all `categories` attributes.
pub fn collect_categories(attrs: &Vec<Attribute>, lits: &Vec<Option<String>>) -> (res: Result<CoreOptionCategories, ParseError>)
    ensures
        match res {
            Ok(c) => spec_collect_categories(attrs@, lits@, 0) == Ok::<Seq<CoreOptionCategory>, ParseError>(c.0@),
            Err(e) => spec_collect_categories(attrs@, lits@, 0) == Err::<Seq<CoreOptionCategory>, ParseError>(e),
        },
{
    let mut parts: Vec<CoreOptionCategories> = Vec::new();
    let mut i: usize = 0;
    proof {
        assert(prepend(Seq::<CoreOptionCategory>::empty(), spec_collect_categories(attrs@, lits@, 0)) == spec_collect_categories(attrs@, lits@, 0)) by {
            if let Ok(r) = spec_collect_categories(attrs@, lits@, 0) {
                assert(Seq::<CoreOptionCategory>::empty() + r =~= r);
            }
        }
    }
    while i < attrs.len()
        invariant
            i <= attrs.len(),
            spec_collect_categories(attrs@, lits@, 0) == prepend(parts@.map_values(|c: CoreOptionCategories| c.0@).flatten(), spec_collect_categories(attrs@, lits@, i as int)),
        decreases attrs.len() - i,
    {
        let attr = &attrs[i];
        proof {
            reveal_strlit("categories");
            assert("categories"@ =~= categories_name());
        }
        if path_is_ident(&attr.path, "categories") {
            let part = CoreOptionCategories::parse_attribute(&attr.tokens, lits)?;
            let ghost before = parts@.map_values(|c: CoreOptionCategories| c.0@);
            parts.push(part);
            proof {
                let after = parts@.map_values(|c: CoreOptionCategories| c.0@);
                assert(after =~= before.push(part.0@));
                lemma_flatten_push(before, part.0@);
                if let Ok(rest) = spec_collect_categories(attrs@, lits@, i + 1) {
                    assert(before.flatten() + (part.0@ + rest) =~= (before.flatten() + part.0@) + rest);
                }
            }
        }
        i = i + 1;
    }
    let all = parts.concat();
    proof {
        assert(all.0@ + Seq::<CoreOptionCategory>::empty() =~= all.0@);
    }
    Ok(all)
}

/// What the derive macro emits for a struct whose attributes are `attrs`;
/// `literals` holds the source texts of the literals that the attributes'
/// tokens refer to by index.
pub fn derive_core_options(attrs: &Vec<Attribute>, literals: &Vec<String>) -> (res: Result<CoreOptionTables, ParseError>)
    ensures
        exists|lits: Seq<Option<String>>| {
            &&& decoded(literals@, lits)
            &&& match res {
                Ok(t) => spec_derive(attrs@, lits) == Ok::<CoreOptionTablesModel, ParseError>(t@),
                Err(e) => spec_derive(attrs@, lits) == Err::<CoreOptionTablesModel, ParseError>(e),
            }
        },
{
    let lits = decode_literals(literals);
    assert(decoded(literals@, lits@));
    let options = match collect_options(attrs, &lits) {
        Ok(o) => o,
        Err(e) => {
            return Err(e);
        },
    };
    let categories = match collect_categories(attrs, &lits) {
        Ok(c) => c,
        Err(e) => {
            return Err(e);
        },
    };
    Ok(core_option_tables(&options, &categories))
}

} // verus!
