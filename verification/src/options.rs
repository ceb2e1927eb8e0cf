//! Core options: their data, and the grammar of the `options(..)` attribute.
use vstd::prelude::*;
use crate::error::{ErrorKind, ParseError, Place};
use crate::grammar::{
    braces_error, comma_error, comma_at, expect_comma, expect_lit, first_of, first_place, group_at,
    group_of, is_comma, join, leftover, leftover_at, lemma_join_assoc, lemma_join_empty, lemma_join_identity, peek_str,
    place_at, place_of, spec_lit, str_at,
};
use crate::tokens::{Delim, StrLit, TokenTree};

verus! {

/// One value that an option can take, with an optional label to show for it.
pub struct CoreOptionValue {
    pub value: StrLit,
    pub label: Option<StrLit>,
}

impl CoreOptionValue {
    /// A copy of the value.
    pub fn copy(&self) -> (res: CoreOptionValue)
        ensures
            res == *self,
    {
        CoreOptionValue {
            value: self.value.copy(),
            label: match &self.label {
                Some(l) => Some(l.copy()),
                None => None,
            },
        }
    }
}

/// Reading the value written as the group at position `i`:
/// `{ value }`, `{ value, }`, `{ value, label }` or `{ value, label, }`.
/// What follows the second comma is left unread.
pub open spec fn spec_value(s: Seq<TokenTree>, lits: Seq<Option<String>>, end: Place, i: int) -> Result<(CoreOptionValue, Option<Place>), ParseError> {
    match group_at(s, i, Delim::Brace) {
        None => Err(braces_error(s, end, i)),
        Some((c, gid)) => {
            let cend = Place::EndOfGroup(gid);
            match spec_lit(c, lits, cend, 0) {
                Err(e) => Err(e),
                Ok(value) => if c.len() <= 1 {
                    Ok((CoreOptionValue { value, label: None }, None))
                } else if !is_comma(c, 1) {
                    Err(comma_error(c, cend, 1))
                } else if c.len() == 2 {
                    Ok((CoreOptionValue { value, label: None }, None))
                } else {
                    match spec_lit(c, lits, cend, 2) {
                        Err(e) => Err(e),
                        Ok(label) => if c.len() == 3 {
                            Ok((CoreOptionValue { value, label: Some(label) }, None))
                        } else if !is_comma(c, 3) {
                            Err(comma_error(c, cend, 3))
                        } else {
                            Ok((CoreOptionValue { value, label: Some(label) }, leftover(c, 4)))
                        },
                    }
                },
            }
        },
    }
}

/// Reading the values from position `i` of the contents of an option's values
/// group: value groups separated by commas, with an optional trailing comma.
pub open spec fn spec_values(s: Seq<TokenTree>, lits: Seq<Option<String>>, end: Place, i: int) -> Result<(Seq<CoreOptionValue>, Option<Place>), ParseError>
    decreases s.len() - i,
{
    if i < 0 || i >= s.len() {
        Ok((Seq::empty(), None))
    } else {
        match spec_value(s, lits, end, i) {
            Err(e) => Err(e),
            Ok((v, u)) => if i + 1 < s.len() && !is_comma(s, i + 1) {
                Err(comma_error(s, end, i + 1))
            } else {
                let n: int = if i + 1 < s.len() { i + 2 } else { i + 1 };
                join(seq![v], u, spec_values(s, lits, end, n))
            },
        }
    }
}

impl CoreOptionValue {
    /// Reads the value written as the group at position `i` of `s`; the result
    /// also holds the first token left unread inside it.
    pub fn parse(s: &Vec<TokenTree>, lits: &Vec<Option<String>>, end: Place, i: usize) -> (res: Result<(CoreOptionValue, Option<Place>), ParseError>)
        ensures
            res == spec_value(s@, lits@, end, i as int),
    {
        let (c, gid) = match group_of(s, i, Delim::Brace) {
            Some(g) => g,
            None => {
                return Err(ParseError { kind: ErrorKind::ExpectedBraces, place: place_of(s, end, i) });
            },
        };
        let cend = Place::EndOfGroup(gid);
        let value = expect_lit(c, lits, cend, 0)?;
        if c.len() <= 1 {
            return Ok((CoreOptionValue { value, label: None }, None));
        }
        expect_comma(c, cend, 1)?;
        if c.len() == 2 {
            return Ok((CoreOptionValue { value, label: None }, None));
        }
        let label = expect_lit(c, lits, cend, 2)?;
        if c.len() == 3 {
            return Ok((CoreOptionValue { value, label: Some(label) }, None));
        }
        expect_comma(c, cend, 3)?;
        Ok((CoreOptionValue { value, label: Some(label) }, leftover_at(c, 4)))
    }
}

/// Reads the values of an option from the contents `s` of its values group.
pub fn parse_values(s: &Vec<TokenTree>, lits: &Vec<Option<String>>, end: Place) -> (res: Result<(Vec<CoreOptionValue>, Option<Place>), ParseError>)
    ensures
        match res {
            Ok((vs, u)) => spec_values(s@, lits@, end, 0) == Ok::<(Seq<CoreOptionValue>, Option<Place>), ParseError>((vs@, u)),
            Err(e) => spec_values(s@, lits@, end, 0) == Err::<(Seq<CoreOptionValue>, Option<Place>), ParseError>(e),
        },
{
    let mut out: Vec<CoreOptionValue> = Vec::new();
    let mut u: Option<Place> = None;
    let mut i: usize = 0;
    proof {
        lemma_join_identity(spec_values(s@, lits@, end, 0));
    }
    while i < s.len()
        invariant
            i <= s.len(),
            spec_values(s@, lits@, end, 0) == join(out@, u, spec_values(s@, lits@, end, i as int)),
        decreases s.len() - i,
    {
        let (v, u1) = match CoreOptionValue::parse(s, lits, end, i) {
            Ok(r) => r,
            Err(e) => {
                return Err(e);
            },
        };
        if i + 1 < s.len() && !comma_at(s, i + 1) {
            return Err(ParseError { kind: ErrorKind::ExpectedComma, place: place_of(s, end, i + 1) });
        }
        let n: usize = if i + 1 < s.len() { i + 2 } else { i + 1 };
        proof {
            lemma_join_assoc(out@, u, v, u1, spec_values(s@, lits@, end, n as int));
        }
        out.push(v);
        u = first_place(u, u1);
        i = n;
    }
    proof {
        lemma_join_empty(out@, u);
    }
    Ok((out, u))
}


/// A core option as the original (first) version of the interface describes it.
pub struct CoreOption {
    pub key: StrLit,
    pub desc: StrLit,
    pub info: StrLit,
    pub values: Vec<CoreOptionValue>,
    pub default_value: Option<StrLit>,
}

/// A core option with the fields that the second version of the interface adds
/// for categories.
pub struct CoreOptionV2 {
    pub key: StrLit,
    pub desc: StrLit,
    pub desc_categorized: Option<StrLit>,
    pub info: StrLit,
    pub info_categorized: Option<StrLit>,
    pub category_key: Option<StrLit>,
    pub values: Vec<CoreOptionValue>,
    pub default_value: Option<StrLit>,
}

/// The mathematical model of a [`CoreOption`].
pub struct CoreOptionModel {
    pub key: StrLit,
    pub desc: StrLit,
    pub info: StrLit,
    pub values: Seq<CoreOptionValue>,
    pub default_value: Option<StrLit>,
}

/// The mathematical model of a [`CoreOptionV2`].
pub struct CoreOptionV2Model {
    pub key: StrLit,
    pub desc: StrLit,
    pub desc_categorized: Option<StrLit>,
    pub info: StrLit,
    pub info_categorized: Option<StrLit>,
    pub category_key: Option<StrLit>,
    pub values: Seq<CoreOptionValue>,
    pub default_value: Option<StrLit>,
}

impl View for CoreOption {
    type V = CoreOptionModel;

    open spec fn view(&self) -> CoreOptionModel {
        CoreOptionModel {
            key: self.key,
            desc: self.desc,
            info: self.info,
            values: self.values@,
            default_value: self.default_value,
        }
    }
}

impl View for CoreOptionV2 {
    type V = CoreOptionV2Model;

    open spec fn view(&self) -> CoreOptionV2Model {
        CoreOptionV2Model {
            key: self.key,
            desc: self.desc,
            desc_categorized: self.desc_categorized,
            info: self.info,
            info_categorized: self.info_categorized,
            category_key: self.category_key,
            values: self.values@,
            default_value: self.default_value,
        }
    }
}

impl CoreOptionModel {
    /// The option in the second version's form: it belongs to no category, and
    /// has no descriptions for a categorized display.
    pub open spec fn upgrade(self) -> CoreOptionV2Model {
        CoreOptionV2Model {
            key: self.key,
            desc: self.desc,
            desc_categorized: None,
            info: self.info,
            info_categorized: None,
            category_key: None,
            values: self.values,
            default_value: self.default_value,
        }
    }
}

/// Reading an option of the first version from the contents `s` of its group:
/// `key, desc, info, { values }` followed by an optional `, default`.
/// What follows the default (or the comma that stands where no default is
/// written) is left unread.
pub open spec fn spec_option(s: Seq<TokenTree>, lits: Seq<Option<String>>, end: Place) -> Result<(CoreOptionModel, Option<Place>), ParseError> {
    match spec_lit(s, lits, end, 0) {
        Err(e) => Err(e),
        Ok(key) => if !is_comma(s, 1) {
            Err(comma_error(s, end, 1))
        } else {
            match spec_lit(s, lits, end, 2) {
                Err(e) => Err(e),
                Ok(desc) => if !is_comma(s, 3) {
                    Err(comma_error(s, end, 3))
                } else {
                    match spec_lit(s, lits, end, 4) {
                        Err(e) => Err(e),
                        Ok(info) => if !is_comma(s, 5) {
                            Err(comma_error(s, end, 5))
                        } else {
                            match group_at(s, 6, Delim::Brace) {
                                None => Err(braces_error(s, end, 6)),
                                Some((c, gid)) => if 7 < s.len() && !is_comma(s, 7) {
                                    Err(comma_error(s, end, 7))
                                } else {
                                    let default_value = str_at(s, lits, 8);
                                    let stop: int = if 7 < s.len() {
                                        if default_value is Some { 9 } else { 8 }
                                    } else {
                                        7
                                    };
                                    match spec_values(c, lits, Place::EndOfGroup(gid), 0) {
                                        Err(e) => Err(e),
                                        Ok((values, u)) => Ok((
                                            CoreOptionModel { key, desc, info, values, default_value },
                                            first_of(u, leftover(s, stop)),
                                        )),
                                    }
                                },
                            }
                        },
                    }
                },
            }
        },
    }
}

/// Reading an option of the second version from the contents `s` of its group:
/// `key, desc, desc_categorized, info, info_categorized, category_key, { values }`,
/// then an optional comma, an optional default, and an optional trailing comma.
/// What follows is left unread.
pub open spec fn spec_option_v2(s: Seq<TokenTree>, lits: Seq<Option<String>>, end: Place) -> Result<(CoreOptionV2Model, Option<Place>), ParseError> {
    match spec_lit(s, lits, end, 0) {
        Err(e) => Err(e),
        Ok(key) => if !is_comma(s, 1) {
            Err(comma_error(s, end, 1))
        } else {
            match spec_lit(s, lits, end, 2) {
                Err(e) => Err(e),
                Ok(desc) => if !is_comma(s, 3) {
                    Err(comma_error(s, end, 3))
                } else {
                    match spec_lit(s, lits, end, 4) {
                        Err(e) => Err(e),
                        Ok(desc_categorized) => if !is_comma(s, 5) {
                            Err(comma_error(s, end, 5))
                        } else {
                            match spec_lit(s, lits, end, 6) {
                                Err(e) => Err(e),
                                Ok(info) => if !is_comma(s, 7) {
                                    Err(comma_error(s, end, 7))
                                } else {
                                    match spec_lit(s, lits, end, 8) {
                                        Err(e) => Err(e),
                                        Ok(info_categorized) => if !is_comma(s, 9) {
                                            Err(comma_error(s, end, 9))
                                        } else {
                                            match spec_lit(s, lits, end, 10) {
                                                Err(e) => Err(e),
                                                Ok(category_key) => if !is_comma(s, 11) {
                                                    Err(comma_error(s, end, 11))
                                                } else {
                                                    spec_option_v2_tail(s, lits, end, key, desc, desc_categorized, info, info_categorized, category_key)
                                                },
                                            }
                                        },
                                    }
                                },
                            }
                        },
                    }
                },
            }
        },
    }
}

/// The part of [`spec_option_v2`] from the values group on.
pub open spec fn spec_option_v2_tail(
    s: Seq<TokenTree>,
    lits: Seq<Option<String>>,
    end: Place,
    key: StrLit,
    desc: StrLit,
    desc_categorized: StrLit,
    info: StrLit,
    info_categorized: StrLit,
    category_key: StrLit,
) -> Result<(CoreOptionV2Model, Option<Place>), ParseError> {
    match group_at(s, 12, Delim::Brace) {
        None => Err(braces_error(s, end, 12)),
        Some((c, gid)) => if 13 < s.len() && !is_comma(s, 13) {
            Err(comma_error(s, end, 13))
        } else {
            let p: int = if 13 < s.len() { 14 } else { 13 };
            let default_value = str_at(s, lits, p);
            let q: int = if default_value is Some { p + 1 } else { p };
            match spec_values(c, lits, Place::EndOfGroup(gid), 0) {
                Err(e) => Err(e),
                Ok((values, u)) => if q < s.len() && !is_comma(s, q) {
                    Err(comma_error(s, end, q))
                } else {
                    let stop: int = if q < s.len() { q + 1 } else { q };
                    Ok((
                        CoreOptionV2Model {
                            key,
                            desc,
                            desc_categorized: Some(desc_categorized),
                            info,
                            info_categorized: Some(info_categorized),
                            category_key: Some(category_key),
                            values,
                            default_value,
                        },
                        first_of(u, leftover(s, stop)),
                    ))
                },
            }
        },
    }
}

impl CoreOption {
    /// Reads an option of the first version from the contents `s` of its
    /// group; the result also holds the first token left unread.
    pub fn parse(s: &Vec<TokenTree>, lits: &Vec<Option<String>>, end: Place) -> (res: Result<(CoreOption, Option<Place>), ParseError>)
        ensures
            match res {
                Ok((o, u)) => spec_option(s@, lits@, end) == Ok::<(CoreOptionModel, Option<Place>), ParseError>((o@, u)),
                Err(e) => spec_option(s@, lits@, end) == Err::<(CoreOptionModel, Option<Place>), ParseError>(e),
            },
    {
        let key = expect_lit(s, lits, end, 0)?;
        expect_comma(s, end, 1)?;
        let desc = expect_lit(s, lits, end, 2)?;
        expect_comma(s, end, 3)?;
        let info = expect_lit(s, lits, end, 4)?;
        expect_comma(s, end, 5)?;
        let (c, gid) = match group_of(s, 6, Delim::Brace) {
            Some(g) => g,
            None => {
                return Err(ParseError { kind: ErrorKind::ExpectedBraces, place: place_of(s, end, 6) });
            },
        };
        let mut stop: usize = 7;
        let mut default_value: Option<StrLit> = None;
        if 7 < s.len() {
            expect_comma(s, end, 7)?;
            default_value = peek_str(s, lits, 8);
            stop = if default_value.is_some() { 9 } else { 8 };
        }
        let (values, u) = parse_values(c, lits, Place::EndOfGroup(gid))?;
        let unread = first_place(u, leftover_at(s, stop));
        Ok((CoreOption { key, desc, info, values, default_value }, unread))
    }
}

impl CoreOptionV2 {
    /// Reads an option of the second version from the contents `s` of its
    /// group; the result also holds the first token left unread.
    pub fn parse(s: &Vec<TokenTree>, lits: &Vec<Option<String>>, end: Place) -> (res: Result<(CoreOptionV2, Option<Place>), ParseError>)
        ensures
            match res {
                Ok((o, u)) => spec_option_v2(s@, lits@, end) == Ok::<(CoreOptionV2Model, Option<Place>), ParseError>((o@, u)),
                Err(e) => spec_option_v2(s@, lits@, end) == Err::<(CoreOptionV2Model, Option<Place>), ParseError>(e),
            },
    {
        let key = expect_lit(s, lits, end, 0)?;
        expect_comma(s, end, 1)?;
        let desc = expect_lit(s, lits, end, 2)?;
        expect_comma(s, end, 3)?;
        let desc_categorized = expect_lit(s, lits, end, 4)?;
        expect_comma(s, end, 5)?;
        let info = expect_lit(s, lits, end, 6)?;
        expect_comma(s, end, 7)?;
        let info_categorized = expect_lit(s, lits, end, 8)?;
        expect_comma(s, end, 9)?;
        let category_key = expect_lit(s, lits, end, 10)?;
        expect_comma(s, end, 11)?;
        let (c, gid) = match group_of(s, 12, Delim::Brace) {
            Some(g) => g,
            None => {
                return Err(ParseError { kind: ErrorKind::ExpectedBraces, place: place_of(s, end, 12) });
            },
        };
        let mut p: usize = 13;
        if 13 < s.len() {
            expect_comma(s, end, 13)?;
            p = 14;
        }
        let default_value = peek_str(s, lits, p);
        let q: usize = if default_value.is_some() { p + 1 } else { p };
        let (values, u) = parse_values(c, lits, Place::EndOfGroup(gid))?;
        let mut stop: usize = q;
        if q < s.len() {
            expect_comma(s, end, q)?;
            stop = q + 1;
        }
        let unread = first_place(u, leftover_at(s, stop));
        Ok((
            CoreOptionV2 {
                key,
                desc,
                desc_categorized: Some(desc_categorized),
                info,
                info_categorized: Some(info_categorized),
                category_key: Some(category_key),
                values,
                default_value,
            },
            unread,
        ))
    }
}


impl From<CoreOption> for CoreOptionV2 {
    /// The option in the second version's form: it belongs to no category, and
    /// has no descriptions for a categorized display.
    fn from(option: CoreOption) -> (res: Self)
        ensures
            res@ == option@.upgrade(),
    {
        CoreOptionV2 {
            key: option.key,
            desc: option.desc,
            desc_categorized: None,
            info: option.info,
            info_categorized: None,
            category_key: None,
            values: option.values,
            default_value: option.default_value,
        }
    }
}

impl vstd::std_specs::convert::FromSpecImpl<CoreOption> for CoreOptionV2 {
    open spec fn obeys_from_spec() -> bool {
        true
    }

    open spec fn from_spec(option: CoreOption) -> CoreOptionV2 {
        CoreOptionV2 {
            key: option.key,
            desc: option.desc,
            desc_categorized: None,
            info: option.info,
            info_categorized: None,
            category_key: None,
            values: option.values,
            default_value: option.default_value,
        }
    }
}

/// Reading the option written as the group at position `i`: in the second
/// version's form where that reads without error, and in the first version's
/// form otherwise. What a failed attempt in the second form left unread is
/// forgotten with it.
pub open spec fn spec_option_at(s: Seq<TokenTree>, lits: Seq<Option<String>>, end: Place, i: int) -> Result<(CoreOptionV2Model, Option<Place>), ParseError> {
    match group_at(s, i, Delim::Brace) {
        None => Err(braces_error(s, end, i)),
        Some((c, gid)) => match spec_option_v2(c, lits, Place::EndOfGroup(gid)) {
            Ok(r) => Ok(r),
            Err(_) => match spec_option(c, lits, Place::EndOfGroup(gid)) {
                Ok((o, u)) => Ok((o.upgrade(), u)),
                Err(e) => Err(e),
            },
        },
    }
}

/// Reading the options from position `i` of the contents of the parentheses:
/// option groups separated by commas, with an optional trailing comma.
pub open spec fn spec_options(s: Seq<TokenTree>, lits: Seq<Option<String>>, end: Place, i: int) -> Result<(Seq<CoreOptionV2Model>, Option<Place>), ParseError>
    decreases s.len() - i,
{
    if i < 0 || i >= s.len() {
        Ok((Seq::empty(), None))
    } else {
        match spec_option_at(s, lits, end, i) {
            Err(e) => Err(e),
            Ok((o, u)) => if i + 1 < s.len() && !is_comma(s, i + 1) {
                Err(comma_error(s, end, i + 1))
            } else {
                let n: int = if i + 1 < s.len() { i + 2 } else { i + 1 };
                join(seq![o], u, spec_options(s, lits, end, n))
            },
        }
    }
}

/// Reading options from the tokens `t`: a parenthesized group of options,
/// which is the first token; the tokens after it are left to the caller. The
/// result also holds the first token left unread inside a group.
pub open spec fn spec_read_options(t: Seq<TokenTree>, lits: Seq<Option<String>>) -> Result<(Seq<CoreOptionV2Model>, Option<Place>), ParseError> {
    match group_at(t, 0, Delim::Paren) {
        None => Err(ParseError { kind: ErrorKind::ExpectedParens, place: place_at(t, Place::EndOfInput, 0) }),
        Some((c, gid)) => spec_options(c, lits, Place::EndOfGroup(gid), 0),
    }
}

/// What an `options` attribute whose tokens are `t` declares: the options
/// read from `t`, where nothing follows the parentheses and no token is left
/// unread in any group; the first such token is reported otherwise.
pub open spec fn spec_parse_options(t: Seq<TokenTree>, lits: Seq<Option<String>>) -> Result<Seq<CoreOptionV2Model>, ParseError> {
    match spec_read_options(t, lits) {
        Err(e) => Err(e),
        Ok((os, u)) => match first_of(u, leftover(t, 1)) {
            Some(p) => Err(ParseError { kind: ErrorKind::UnexpectedToken, place: p }),
            None => Ok(os),
        },
    }
}

/// The options that one `options` attribute declares.
pub struct CoreOptions(pub Vec<CoreOptionV2>);

impl View for CoreOptions {
    type V = Seq<CoreOptionV2Model>;

    open spec fn view(&self) -> Seq<CoreOptionV2Model> {
        self.0@.map_values(|o: CoreOptionV2| o@)
    }
}

/// Reads the option written as the group at position `i` of `s`.
pub fn parse_option_at(s: &Vec<TokenTree>, lits: &Vec<Option<String>>, end: Place, i: usize) -> (res: Result<(CoreOptionV2, Option<Place>), ParseError>)
    ensures
        match res {
            Ok((o, u)) => spec_option_at(s@, lits@, end, i as int) == Ok::<(CoreOptionV2Model, Option<Place>), ParseError>((o@, u)),
            Err(e) => spec_option_at(s@, lits@, end, i as int) == Err::<(CoreOptionV2Model, Option<Place>), ParseError>(e),
        },
{
    let (c, gid) = match group_of(s, i, Delim::Brace) {
        Some(g) => g,
        None => {
            return Err(ParseError { kind: ErrorKind::ExpectedBraces, place: place_of(s, end, i) });
        },
    };
    match CoreOptionV2::parse(c, lits, Place::EndOfGroup(gid)) {
        Ok(r) => Ok(r),
        Err(_) => {
            let (o, u) = CoreOption::parse(c, lits, Place::EndOfGroup(gid))?;
            Ok((CoreOptionV2::from(o), u))
        },
    }
}

impl CoreOptions {
    /// Reads options from `t`: the parenthesized group that is its first
    /// token. The result holds the options, the first token left unread inside
    /// a group, and the position in `t` of the first token left to the caller.
    /// `lits` gives the values of the literals (see
    /// [`crate::tokens::decode_literals`]).
    pub fn parse(t: &Vec<TokenTree>, lits: &Vec<Option<String>>) -> (res: Result<(CoreOptions, Option<Place>, usize), ParseError>)
        ensures
            match res {
                Ok((o, u, next)) => {
                    &&& spec_read_options(t@, lits@) == Ok::<(Seq<CoreOptionV2Model>, Option<Place>), ParseError>((o@, u))
                    &&& next == 1
                },
                Err(e) => spec_read_options(t@, lits@) == Err::<(Seq<CoreOptionV2Model>, Option<Place>), ParseError>(e),
            },
    {
        let (s, gid) = match group_of(t, 0, Delim::Paren) {
            Some(g) => g,
            None => {
                return Err(ParseError { kind: ErrorKind::ExpectedParens, place: place_of(t, Place::EndOfInput, 0) });
            },
        };
        let end = Place::EndOfGroup(gid);
        let mut out: Vec<CoreOptionV2> = Vec::new();
        let mut u: Option<Place> = None;
        let mut i: usize = 0;
        proof {
            lemma_join_identity(spec_options(s@, lits@, end, 0));
        }
        while i < s.len()
            invariant
                group_at(t@, 0, Delim::Paren) == Some((s@, gid)),
                end == Place::EndOfGroup(gid),
                i <= s.len(),
                spec_options(s@, lits@, end, 0) == join(out@.map_values(|o: CoreOptionV2| o@), u, spec_options(s@, lits@, end, i as int)),
            decreases s.len() - i,
        {
            let (o, u1) = parse_option_at(s, lits, end, i)?;
            if i + 1 < s.len() && !comma_at(s, i + 1) {
                return Err(ParseError { kind: ErrorKind::ExpectedComma, place: place_of(s, end, i + 1) });
            }
            let n: usize = if i + 1 < s.len() { i + 2 } else { i + 1 };
            let ghost before = out@.map_values(|o: CoreOptionV2| o@);
            proof {
                lemma_join_assoc(before, u, o@, u1, spec_options(s@, lits@, end, n as int));
            }
            out.push(o);
            assert(out@.map_values(|o: CoreOptionV2| o@) =~= before.push(out@[out@.len() - 1]@));
            u = first_place(u, u1);
            i = n;
        }
        proof {
            lemma_join_empty(out@.map_values(|o: CoreOptionV2| o@), u);
        }
        Ok((CoreOptions(out), u, 1))
    }

    /// Reads an `options` attribute whose tokens are `t`: the options, where
    /// nothing follows the parentheses and no token is left unread inside a
    /// group; an `UnexpectedToken` error at the first such token otherwise.
    pub fn parse_attribute(t: &Vec<TokenTree>, lits: &Vec<Option<String>>) -> (res: Result<CoreOptions, ParseError>)
        ensures
            match res {
                Ok(o) => spec_parse_options(t@, lits@) == Ok::<Seq<CoreOptionV2Model>, ParseError>(o@),
                Err(e) => spec_parse_options(t@, lits@) == Err::<Seq<CoreOptionV2Model>, ParseError>(e),
            },
    {
        let (options, u, next) = CoreOptions::parse(t, lits)?;
        match first_place(u, leftover_at(t, next)) {
            Some(p) => Err(ParseError { kind: ErrorKind::UnexpectedToken, place: p }),
            None => Ok(options),
        }
    }
}

/// Joining the results of several attributes into one.
pub trait Concat<T> {
    fn concat(self) -> T;
}

impl Concat<CoreOptions> for Vec<CoreOptions> {
    /// All options of all the attributes, in order.
    fn concat(self) -> (res: CoreOptions)
        ensures
            res@ == self@.map_values(|o: CoreOptions| o@).flatten(),
    {
        let ghost parts = self@.map_values(|o: CoreOptions| o@);
        let mut all: Vec<CoreOptionV2> = Vec::new();
        let mut rest = self;
        let mut taken: usize = 0;
        let n: usize = rest.len();
        while rest.len() > 0
            invariant
                taken + rest.len() == n,
                n == parts.len(),
                forall|k: int| 0 <= k < rest.len() ==> #[trigger] rest@[k]@ == parts[taken + k],
                all@.map_values(|o: CoreOptionV2| o@) == parts.take(taken as int).flatten_alt(),
            decreases rest.len(),
        {
            let ghost rest_before = rest@;
            let part = rest.remove(0);
            let ghost before = all@.map_values(|o: CoreOptionV2| o@);
            let mut items = part.0;
            let ghost all_before = all@;
            let ghost items_before = items@;
            all.append(&mut items);
            proof {
                assert(part == rest_before[0]);
                assert(part@ == parts[taken as int]);
                assert(all@ == all_before + items_before);
                assert(parts.take(taken as int + 1).drop_last() =~= parts.take(taken as int));
                assert(all@.map_values(|o: CoreOptionV2| o@) =~= before + parts[taken as int]);
                assert forall|k: int| 0 <= k < rest.len() implies #[trigger] rest@[k]@ == parts[taken + 1 + k] by {
                    assert(rest@[k] == rest_before[k + 1]);
                }
            }
            taken = taken + 1;
        }
        proof {
            assert(parts.take(n as int) =~= parts);
            parts.lemma_flatten_and_flatten_alt_are_equivalent();
        }
        CoreOptions(all)
    }
}

} // verus!
