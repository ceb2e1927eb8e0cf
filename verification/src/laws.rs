//! Laws of the library: properties that relate its functions to one another,
//! or that hold of all their inputs.
use vstd::prelude::*;
use crate::error::{ParseError, Place};
use crate::grammar::{group_at, is_comma, leftover, str_at};
use crate::options::{spec_option, spec_option_at, spec_option_v2, spec_options, spec_parse_options, spec_read_options, CoreOptions, spec_value, spec_values, CoreOptionV2Model, CoreOptionValue};
use crate::categories::{spec_categories, spec_category_at, spec_parse_categories, spec_read_categories, CoreOptionCategories, CoreOptionCategory};
use crate::derive::{categories_name, options_name, prepend, spec_collect_categories, spec_collect_options, spec_derive, Attribute};
use crate::context::{attrs_wf, call_positions, is_env_arg, kept_args, kept_attrs, FnArg};
use crate::derive::AttrPath;
use crate::literal::{cooked_end, cooked_value, hash_run, literal_end, raw_end, raw_value, str_literal_text, string_value};
use crate::tokens::decoded_as;
use crate::unstable::{first_str, notice_text, spec_feature_name, MetaArg};
use crate::tables::{c_string, category_entry, ByteLitModel, option_entry, tables, value_entries, values_text, variable_entry, ValueEntryModel, RETRO_NUM_CORE_OPTION_VALUES_MAX};
use crate::tokens::{Delim, StrLit, TokenTree};
use vstd::utf8::{decode_utf8, encode_utf8, encode_utf8_decode_utf8};
use vstd::seq_lib::lemma_flatten_concat;

verus! {

// ---------------------------------------------------------------------------
// The documented syntax of the `options` attribute
// ---------------------------------------------------------------------------

/// The group at position `i` writes the value `v`: `{ "value" }` or
/// `{ "value", "label" }`, each with an optional trailing comma.
pub open spec fn writes_value(s: Seq<TokenTree>, lits: Seq<Option<String>>, i: int, v: CoreOptionValue) -> bool {
    match group_at(s, i, Delim::Brace) {
        None => false,
        Some((c, _)) => {
            &&& str_at(c, lits, 0) == Some(v.value)
            &&& match v.label {
                None => c.len() == 1 || (c.len() == 2 && is_comma(c, 1)),
                Some(l) => {
                    &&& 3 <= c.len() <= 4
                    &&& is_comma(c, 1)
                    &&& str_at(c, lits, 2) == Some(l)
                    &&& c.len() == 4 ==> is_comma(c, 3)
                },
            }
        },
    }
}

/// `s` is a list of `n` items separated by commas, with an optional trailing
/// comma: item `k` at position `2 k`.
pub open spec fn comma_list(s: Seq<TokenTree>, n: int) -> bool {
    &&& n == 0 ==> s.len() == 0
    &&& n > 0 ==> (s.len() == 2 * n - 1 || s.len() == 2 * n)
    &&& forall|k: int| 0 <= k && 2 * k + 1 < s.len() ==> #[trigger] is_comma(s, 2 * k + 1)
}

/// `s` writes the values `vs`.
pub open spec fn writes_values(s: Seq<TokenTree>, lits: Seq<Option<String>>, vs: Seq<CoreOptionValue>) -> bool {
    &&& comma_list(s, vs.len() as int)
    &&& forall|k: int| 0 <= k < vs.len() ==> #[trigger] writes_value(s, lits, 2 * k, vs[k])
}

/// The contents `s` of an option's group write `o` in the first version's
/// form: `"key", "desc", "info", { values }`, then either nothing, a comma, or
/// a comma and the default value.
pub open spec fn writes_option_v1(s: Seq<TokenTree>, lits: Seq<Option<String>>, o: CoreOptionV2Model) -> bool {
    &&& o.desc_categorized is None
    &&& o.info_categorized is None
    &&& o.category_key is None
    &&& str_at(s, lits, 0) == Some(o.key)
    &&& is_comma(s, 1)
    &&& str_at(s, lits, 2) == Some(o.desc)
    &&& is_comma(s, 3)
    &&& str_at(s, lits, 4) == Some(o.info)
    &&& is_comma(s, 5)
    &&& match group_at(s, 6, Delim::Brace) {
        Some((c, _)) => writes_values(c, lits, o.values),
        None => false,
    }
    &&& match o.default_value {
        None => s.len() == 7 || (s.len() == 8 && is_comma(s, 7)),
        Some(d) => s.len() == 9 && is_comma(s, 7) && str_at(s, lits, 8) == Some(d),
    }
}

/// The contents `s` of an option's group write `o` in the second version's
/// form: `"key", "desc", "desc_categorized", "info", "info_categorized",
/// "category_key", { values }`, then an optional comma and default value, and
/// an optional trailing comma (which may also follow a comma that stands
/// where no default is written).
pub open spec fn writes_option_v2(s: Seq<TokenTree>, lits: Seq<Option<String>>, o: CoreOptionV2Model) -> bool {
    &&& o.desc_categorized is Some
    &&& o.info_categorized is Some
    &&& o.category_key is Some
    &&& str_at(s, lits, 0) == Some(o.key)
    &&& is_comma(s, 1)
    &&& str_at(s, lits, 2) == Some(o.desc)
    &&& is_comma(s, 3)
    &&& str_at(s, lits, 4) == o.desc_categorized
    &&& is_comma(s, 5)
    &&& str_at(s, lits, 6) == Some(o.info)
    &&& is_comma(s, 7)
    &&& str_at(s, lits, 8) == o.info_categorized
    &&& is_comma(s, 9)
    &&& str_at(s, lits, 10) == o.category_key
    &&& is_comma(s, 11)
    &&& match group_at(s, 12, Delim::Brace) {
        Some((c, _)) => writes_values(c, lits, o.values),
        None => false,
    }
    &&& match o.default_value {
        None => s.len() == 13 || (s.len() == 14 && is_comma(s, 13)) || (s.len() == 15 && is_comma(s, 13) && is_comma(s, 14)),
        Some(d) => 15 <= s.len() <= 16 && is_comma(s, 13) && str_at(s, lits, 14) == Some(d) && (s.len() == 16 ==> is_comma(s, 15)),
    }
}

/// The group at position `i` writes the option `o` in either form.
pub open spec fn writes_option(s: Seq<TokenTree>, lits: Seq<Option<String>>, i: int, o: CoreOptionV2Model) -> bool {
    match group_at(s, i, Delim::Brace) {
        None => false,
        Some((c, _)) => writes_option_v1(c, lits, o) || writes_option_v2(c, lits, o),
    }
}

/// The tokens `t` of an `options` attribute write the options `os`:
/// `( option, option, ... )` with an optional trailing comma.
pub open spec fn writes_options(t: Seq<TokenTree>, lits: Seq<Option<String>>, os: Seq<CoreOptionV2Model>) -> bool {
    &&& t.len() == 1
    &&& match group_at(t, 0, Delim::Paren) {
        Some((c, _)) => {
            &&& comma_list(c, os.len() as int)
            &&& forall|k: int| 0 <= k < os.len() ==> #[trigger] writes_option(c, lits, 2 * k, os[k])
        },
        None => false,
    }
}

proof fn lemma_read_value(s: Seq<TokenTree>, lits: Seq<Option<String>>, end: Place, i: int, v: CoreOptionValue)
    requires
        writes_value(s, lits, i, v),
    ensures
        spec_value(s, lits, end, i) == Ok::<(CoreOptionValue, Option<Place>), crate::error::ParseError>((v, None)),
{
}

proof fn lemma_read_values(s: Seq<TokenTree>, lits: Seq<Option<String>>, end: Place, vs: Seq<CoreOptionValue>, k: int)
    requires
        writes_values(s, lits, vs),
        0 <= k <= vs.len(),
    ensures
        spec_values(s, lits, end, 2 * k) == Ok::<(Seq<CoreOptionValue>, Option<Place>), crate::error::ParseError>((vs.subrange(k, vs.len() as int), None)),
    decreases vs.len() - k,
{
    if k < vs.len() {
        lemma_read_value(s, lits, end, 2 * k, vs[k]);
        assert(writes_value(s, lits, 2 * k, vs[k]));
        if 2 * k + 1 < s.len() {
            assert(is_comma(s, 2 * k + 1));
        }
        lemma_read_values(s, lits, end, vs, k + 1);
        if k + 1 < vs.len() {
            assert(2 * k + 1 < s.len());
        } else {
            assert(2 * (k + 1) >= s.len());
            if 2 * k + 1 >= s.len() {
                assert(spec_values(s, lits, end, 2 * k + 1) == spec_values(s, lits, end, 2 * k + 2));
            }
        }
        assert(seq![vs[k]] + vs.subrange(k + 1, vs.len() as int) =~= vs.subrange(k, vs.len() as int));
    } else {
        assert(vs.subrange(k, vs.len() as int) =~= Seq::<CoreOptionValue>::empty());
    }
}

proof fn lemma_read_option(s: Seq<TokenTree>, lits: Seq<Option<String>>, end: Place, i: int, o: CoreOptionV2Model)
    requires
        writes_option(s, lits, i, o),
    ensures
        spec_option_at(s, lits, end, i) == Ok::<(CoreOptionV2Model, Option<Place>), crate::error::ParseError>((o, None)),
{
    let (c, gid) = group_at(s, i, Delim::Brace).unwrap();
    let oend = Place::EndOfGroup(gid);
    if writes_option_v2(c, lits, o) {
        let (vc, vgid) = group_at(c, 12, Delim::Brace).unwrap();
        lemma_read_values(vc, lits, Place::EndOfGroup(vgid), o.values, 0);
        assert(o.values.subrange(0, o.values.len() as int) =~= o.values);
        assert(spec_option_v2(c, lits, oend) == Ok::<(CoreOptionV2Model, Option<Place>), crate::error::ParseError>((o, None)));
    } else {
        let (vc, vgid) = group_at(c, 6, Delim::Brace).unwrap();
        lemma_read_values(vc, lits, Place::EndOfGroup(vgid), o.values, 0);
        assert(o.values.subrange(0, o.values.len() as int) =~= o.values);
        assert(str_at(c, lits, 6) is None);
        assert(spec_option_v2(c, lits, oend) is Err);
        assert(spec_option(c, lits, oend) is Ok);
        let (o1, u1) = spec_option(c, lits, oend)->Ok_0;
        assert(o1.upgrade() == o);
    }
}

proof fn lemma_read_option_list(s: Seq<TokenTree>, lits: Seq<Option<String>>, end: Place, os: Seq<CoreOptionV2Model>, k: int)
    requires
        comma_list(s, os.len() as int),
        forall|j: int| 0 <= j < os.len() ==> #[trigger] writes_option(s, lits, 2 * j, os[j]),
        0 <= k <= os.len(),
    ensures
        spec_options(s, lits, end, 2 * k) == Ok::<(Seq<CoreOptionV2Model>, Option<Place>), crate::error::ParseError>((os.subrange(k, os.len() as int), None)),
    decreases os.len() - k,
{
    if k < os.len() {
        assert(writes_option(s, lits, 2 * k, os[k]));
        lemma_read_option(s, lits, end, 2 * k, os[k]);
        if 2 * k + 1 < s.len() {
            assert(is_comma(s, 2 * k + 1));
        }
        lemma_read_option_list(s, lits, end, os, k + 1);
        if k + 1 < os.len() {
            assert(2 * k + 1 < s.len());
        } else {
            assert(2 * (k + 1) >= s.len());
            if 2 * k + 1 >= s.len() {
                assert(spec_options(s, lits, end, 2 * k + 1) == spec_options(s, lits, end, 2 * k + 2));
            }
        }
        assert(seq![os[k]] + os.subrange(k + 1, os.len() as int) =~= os.subrange(k, os.len() as int));
    } else {
        assert(os.subrange(k, os.len() as int) =~= Seq::<CoreOptionV2Model>::empty());
    }
}

/// Reading back what was written: an `options` attribute written in the
/// documented syntax declares exactly the options it writes, in order; an
/// option written in the first version's form belongs to no category.
pub proof fn lemma_options_read_as_written(t: Seq<TokenTree>, lits: Seq<Option<String>>, os: Seq<CoreOptionV2Model>)
    requires
        writes_options(t, lits, os),
    ensures
        spec_parse_options(t, lits) == Ok::<Seq<CoreOptionV2Model>, crate::error::ParseError>(os),
{
    let (c, gid) = group_at(t, 0, Delim::Paren).unwrap();
    lemma_read_option_list(c, lits, Place::EndOfGroup(gid), os, 0);
    assert(os.subrange(0, os.len() as int) =~= os);
}


proof fn lemma_value_written(s: Seq<TokenTree>, lits: Seq<Option<String>>, end: Place, i: int, v: CoreOptionValue)
    requires
        spec_value(s, lits, end, i) == Ok::<(CoreOptionValue, Option<Place>), crate::error::ParseError>((v, None)),
    ensures
        writes_value(s, lits, i, v),
{
}

proof fn lemma_values_written(s: Seq<TokenTree>, lits: Seq<Option<String>>, end: Place, i: int, vs: Seq<CoreOptionValue>)
    requires
        0 <= i,
        spec_values(s, lits, end, i) == Ok::<(Seq<CoreOptionValue>, Option<Place>), crate::error::ParseError>((vs, None)),
    ensures
        vs.len() == 0 ==> i >= s.len(),
        vs.len() > 0 ==> (s.len() - i == 2 * vs.len() - 1 || s.len() - i == 2 * vs.len()),
        forall|k: int| 0 <= k && i + 2 * k + 1 < s.len() ==> #[trigger] is_comma(s, i + 2 * k + 1),
        forall|k: int| 0 <= k < vs.len() ==> #[trigger] writes_value(s, lits, i + 2 * k, vs[k]),
    decreases s.len() - i,
{
    if i < s.len() {
        let (v, u1) = spec_value(s, lits, end, i)->Ok_0;
        let n: int = if i + 1 < s.len() { i + 2 } else { i + 1 };
        let (rest, u2) = spec_values(s, lits, end, n)->Ok_0;
        assert(vs == seq![v] + rest);
        lemma_value_written(s, lits, end, i, v);
        lemma_values_written(s, lits, end, n, rest);
        assert forall|k: int| 0 <= k && i + 2 * k + 1 < s.len() implies #[trigger] is_comma(s, i + 2 * k + 1) by {
            if k > 0 {
                assert(is_comma(s, n + 2 * (k - 1) + 1));
            }
        }
        assert forall|k: int| 0 <= k < vs.len() implies #[trigger] writes_value(s, lits, i + 2 * k, vs[k]) by {
            if k > 0 {
                assert(writes_value(s, lits, n + 2 * (k - 1), rest[k - 1]));
            }
        }
    }
}

proof fn lemma_values_written_all(s: Seq<TokenTree>, lits: Seq<Option<String>>, end: Place, vs: Seq<CoreOptionValue>)
    requires
        spec_values(s, lits, end, 0) == Ok::<(Seq<CoreOptionValue>, Option<Place>), crate::error::ParseError>((vs, None)),
    ensures
        writes_values(s, lits, vs),
{
    lemma_values_written(s, lits, end, 0, vs);
    assert forall|k: int| 0 <= k && 2 * k + 1 < s.len() implies #[trigger] is_comma(s, 2 * k + 1) by {
        assert(is_comma(s, 0 + 2 * k + 1));
    }
    assert forall|k: int| 0 <= k < vs.len() implies #[trigger] writes_value(s, lits, 2 * k, vs[k]) by {
        assert(writes_value(s, lits, 0 + 2 * k, vs[k]));
    }
}

proof fn lemma_option_written(s: Seq<TokenTree>, lits: Seq<Option<String>>, end: Place, i: int, o: CoreOptionV2Model)
    requires
        spec_option_at(s, lits, end, i) == Ok::<(CoreOptionV2Model, Option<Place>), crate::error::ParseError>((o, None)),
    ensures
        writes_option(s, lits, i, o),
{
    let (c, gid) = group_at(s, i, Delim::Brace).unwrap();
    let oend = Place::EndOfGroup(gid);
    if spec_option_v2(c, lits, oend) is Ok {
        let (vc, vgid) = group_at(c, 12, Delim::Brace).unwrap();
        let (values, u) = spec_values(vc, lits, Place::EndOfGroup(vgid), 0)->Ok_0;
        assert(values == o.values && u is None);
        lemma_values_written_all(vc, lits, Place::EndOfGroup(vgid), values);
        assert(writes_option_v2(c, lits, o));
    } else {
        let (vc, vgid) = group_at(c, 6, Delim::Brace).unwrap();
        let (values, u) = spec_values(vc, lits, Place::EndOfGroup(vgid), 0)->Ok_0;
        assert(values == o.values && u is None);
        lemma_values_written_all(vc, lits, Place::EndOfGroup(vgid), values);
        assert(writes_option_v1(c, lits, o));
    }
}

proof fn lemma_option_list_written(s: Seq<TokenTree>, lits: Seq<Option<String>>, end: Place, i: int, os: Seq<CoreOptionV2Model>)
    requires
        0 <= i,
        spec_options(s, lits, end, i) == Ok::<(Seq<CoreOptionV2Model>, Option<Place>), crate::error::ParseError>((os, None)),
    ensures
        os.len() == 0 ==> i >= s.len(),
        os.len() > 0 ==> (s.len() - i == 2 * os.len() - 1 || s.len() - i == 2 * os.len()),
        forall|k: int| 0 <= k && i + 2 * k + 1 < s.len() ==> #[trigger] is_comma(s, i + 2 * k + 1),
        forall|k: int| 0 <= k < os.len() ==> #[trigger] writes_option(s, lits, i + 2 * k, os[k]),
    decreases s.len() - i,
{
    if i < s.len() {
        let (o, u1) = spec_option_at(s, lits, end, i)->Ok_0;
        let n: int = if i + 1 < s.len() { i + 2 } else { i + 1 };
        let (rest, u2) = spec_options(s, lits, end, n)->Ok_0;
        assert(os == seq![o] + rest);
        lemma_option_written(s, lits, end, i, o);
        lemma_option_list_written(s, lits, end, n, rest);
        assert forall|k: int| 0 <= k && i + 2 * k + 1 < s.len() implies #[trigger] is_comma(s, i + 2 * k + 1) by {
            if k > 0 {
                assert(is_comma(s, n + 2 * (k - 1) + 1));
            }
        }
        assert forall|k: int| 0 <= k < os.len() implies #[trigger] writes_option(s, lits, i + 2 * k, os[k]) by {
            if k > 0 {
                assert(writes_option(s, lits, n + 2 * (k - 1), rest[k - 1]));
            }
        }
    }
}

/// The `options` attribute accepts exactly the documented syntax: whatever
/// reads without error is written in it, and declares the options it writes.
pub proof fn lemma_options_read_only_when_written(t: Seq<TokenTree>, lits: Seq<Option<String>>, os: Seq<CoreOptionV2Model>)
    requires
        spec_parse_options(t, lits) == Ok::<Seq<CoreOptionV2Model>, crate::error::ParseError>(os),
    ensures
        writes_options(t, lits, os),
{
    let (c, gid) = group_at(t, 0, Delim::Paren).unwrap();
    let (os2, u) = spec_options(c, lits, Place::EndOfGroup(gid), 0)->Ok_0;
    assert(os2 == os);
    lemma_option_list_written(c, lits, Place::EndOfGroup(gid), 0, os);
    assert forall|k: int| 0 <= k && 2 * k + 1 < c.len() implies #[trigger] is_comma(c, 2 * k + 1) by {
        assert(is_comma(c, 0 + 2 * k + 1));
    }
    assert forall|k: int| 0 <= k < os.len() implies #[trigger] writes_option(c, lits, 2 * k, os[k]) by {
        assert(writes_option(c, lits, 0 + 2 * k, os[k]));
    }
}

// ---------------------------------------------------------------------------
// The documented syntax of the `categories` attribute
// ---------------------------------------------------------------------------

/// The group at position `i` writes the category `c`:
/// `{ "key", "desc", "info" }` with an optional trailing comma.
pub open spec fn writes_category(s: Seq<TokenTree>, lits: Seq<Option<String>>, i: int, c: CoreOptionCategory) -> bool {
    match group_at(s, i, Delim::Brace) {
        None => false,
        Some((g, _)) => {
            &&& 5 <= g.len() <= 6
            &&& str_at(g, lits, 0) == Some(c.key)
            &&& is_comma(g, 1)
            &&& str_at(g, lits, 2) == Some(c.desc)
            &&& is_comma(g, 3)
            &&& str_at(g, lits, 4) == Some(c.info)
            &&& g.len() == 6 ==> is_comma(g, 5)
        },
    }
}

/// The tokens `t` of a `categories` attribute write the categories `cs`:
/// `( category, category, ... )` with an optional trailing comma.
pub open spec fn writes_categories(t: Seq<TokenTree>, lits: Seq<Option<String>>, cs: Seq<CoreOptionCategory>) -> bool {
    &&& t.len() == 1
    &&& match group_at(t, 0, Delim::Paren) {
        Some((g, _)) => {
            &&& comma_list(g, cs.len() as int)
            &&& forall|k: int| 0 <= k < cs.len() ==> #[trigger] writes_category(g, lits, 2 * k, cs[k])
        },
        None => false,
    }
}

proof fn lemma_read_category_list(s: Seq<TokenTree>, lits: Seq<Option<String>>, end: Place, cs: Seq<CoreOptionCategory>, k: int)
    requires
        comma_list(s, cs.len() as int),
        forall|j: int| 0 <= j < cs.len() ==> #[trigger] writes_category(s, lits, 2 * j, cs[j]),
        0 <= k <= cs.len(),
    ensures
        spec_categories(s, lits, end, 2 * k) == Ok::<(Seq<CoreOptionCategory>, Option<Place>), crate::error::ParseError>((cs.subrange(k, cs.len() as int), None)),
    decreases cs.len() - k,
{
    if k < cs.len() {
        assert(writes_category(s, lits, 2 * k, cs[k]));
        assert(spec_category_at(s, lits, end, 2 * k) == Ok::<(CoreOptionCategory, Option<Place>), crate::error::ParseError>((cs[k], None)));
        if 2 * k + 1 < s.len() {
            assert(is_comma(s, 2 * k + 1));
        }
        lemma_read_category_list(s, lits, end, cs, k + 1);
        if k + 1 < cs.len() {
            assert(2 * k + 1 < s.len());
        } else {
            assert(2 * (k + 1) >= s.len());
            if 2 * k + 1 >= s.len() {
                assert(spec_categories(s, lits, end, 2 * k + 1) == spec_categories(s, lits, end, 2 * k + 2));
            }
        }
        assert(seq![cs[k]] + cs.subrange(k + 1, cs.len() as int) =~= cs.subrange(k, cs.len() as int));
    } else {
        assert(cs.subrange(k, cs.len() as int) =~= Seq::<CoreOptionCategory>::empty());
    }
}

/// Reading back what was written: a `categories` attribute written in the
/// documented syntax declares exactly the categories it writes, in order.
pub proof fn lemma_categories_read_as_written(t: Seq<TokenTree>, lits: Seq<Option<String>>, cs: Seq<CoreOptionCategory>)
    requires
        writes_categories(t, lits, cs),
    ensures
        spec_parse_categories(t, lits) == Ok::<Seq<CoreOptionCategory>, crate::error::ParseError>(cs),
{
    let (g, gid) = group_at(t, 0, Delim::Paren).unwrap();
    lemma_read_category_list(g, lits, Place::EndOfGroup(gid), cs, 0);
    assert(cs.subrange(0, cs.len() as int) =~= cs);
}

proof fn lemma_category_list_written(s: Seq<TokenTree>, lits: Seq<Option<String>>, end: Place, i: int, cs: Seq<CoreOptionCategory>)
    requires
        0 <= i,
        spec_categories(s, lits, end, i) == Ok::<(Seq<CoreOptionCategory>, Option<Place>), crate::error::ParseError>((cs, None)),
    ensures
        cs.len() == 0 ==> i >= s.len(),
        cs.len() > 0 ==> (s.len() - i == 2 * cs.len() - 1 || s.len() - i == 2 * cs.len()),
        forall|k: int| 0 <= k && i + 2 * k + 1 < s.len() ==> #[trigger] is_comma(s, i + 2 * k + 1),
        forall|k: int| 0 <= k < cs.len() ==> #[trigger] writes_category(s, lits, i + 2 * k, cs[k]),
    decreases s.len() - i,
{
    if i < s.len() {
        let (c, u1) = spec_category_at(s, lits, end, i)->Ok_0;
        let n: int = if i + 1 < s.len() { i + 2 } else { i + 1 };
        let (rest, u2) = spec_categories(s, lits, end, n)->Ok_0;
        assert(cs == seq![c] + rest);
        assert(writes_category(s, lits, i, c));
        lemma_category_list_written(s, lits, end, n, rest);
        assert forall|k: int| 0 <= k && i + 2 * k + 1 < s.len() implies #[trigger] is_comma(s, i + 2 * k + 1) by {
            if k > 0 {
                assert(is_comma(s, n + 2 * (k - 1) + 1));
            }
        }
        assert forall|k: int| 0 <= k < cs.len() implies #[trigger] writes_category(s, lits, i + 2 * k, cs[k]) by {
            if k > 0 {
                assert(writes_category(s, lits, n + 2 * (k - 1), rest[k - 1]));
            }
        }
    }
}

/// The `categories` attribute accepts exactly the documented syntax: whatever
/// reads without error is written in it, and declares the categories it writes.
pub proof fn lemma_categories_read_only_when_written(t: Seq<TokenTree>, lits: Seq<Option<String>>, cs: Seq<CoreOptionCategory>)
    requires
        spec_parse_categories(t, lits) == Ok::<Seq<CoreOptionCategory>, crate::error::ParseError>(cs),
    ensures
        writes_categories(t, lits, cs),
{
    let (g, gid) = group_at(t, 0, Delim::Paren).unwrap();
    let (cs2, u) = spec_categories(g, lits, Place::EndOfGroup(gid), 0)->Ok_0;
    assert(cs2 == cs);
    lemma_category_list_written(g, lits, Place::EndOfGroup(gid), 0, cs);
    assert forall|k: int| 0 <= k && 2 * k + 1 < g.len() implies #[trigger] is_comma(g, 2 * k + 1) by {
        assert(is_comma(g, 0 + 2 * k + 1));
    }
    assert forall|k: int| 0 <= k < cs.len() implies #[trigger] writes_category(g, lits, 2 * k, cs[k]) by {
        assert(writes_category(g, lits, 0 + 2 * k, cs[k]));
    }
}

// ---------------------------------------------------------------------------
// Several attributes
// ---------------------------------------------------------------------------

proof fn lemma_collect_options_suffix(a: Seq<Attribute>, b: Seq<Attribute>, lits: Seq<Option<String>>, j: int)
    requires
        0 <= j <= b.len(),
    ensures
        spec_collect_options(a + b, lits, a.len() + j) == spec_collect_options(b, lits, j),
    decreases b.len() - j,
{
    if j < b.len() {
        lemma_collect_options_suffix(a, b, lits, j + 1);
        assert((a + b)[a.len() + j] == b[j]);
    }
}

proof fn lemma_collect_options_prefix(a: Seq<Attribute>, b: Seq<Attribute>, lits: Seq<Option<String>>, i: int)
    requires
        0 <= i <= a.len(),
    ensures
        spec_collect_options(a + b, lits, i) == match spec_collect_options(a, lits, i) {
            Err(e) => Err(e),
            Ok(x) => prepend(x, spec_collect_options(b, lits, 0)),
        },
    decreases a.len() - i,
{
    if i < a.len() {
        lemma_collect_options_prefix(a, b, lits, i + 1);
        assert((a + b)[i] == a[i]);
        if let Ok(x) = spec_collect_options(a, lits, i + 1) {
            if let Ok(y) = spec_collect_options(b, lits, 0) {
                if is_ident_options(a[i]) {
                    if let Ok(os) = spec_parse_options(a[i].tokens@, lits) {
                        assert(os + (x + y) =~= (os + x) + y);
                    }
                }
            }
        }
    } else {
        lemma_collect_options_suffix(a, b, lits, 0);
        if let Ok(y) = spec_collect_options(b, lits, 0) {
            assert(Seq::<CoreOptionV2Model>::empty() + y =~= y);
        }
    }
}

spec fn is_ident_options(a: Attribute) -> bool {
    crate::derive::is_ident(a.path, options_name())
}

/// Options declared in several attributes add up: the attributes `a` followed
/// by `b` declare the options of `a` followed by those of `b`; an error in `a`
/// is reported before anything in `b` is read.
pub proof fn lemma_options_of_attributes_add_up(a: Seq<Attribute>, b: Seq<Attribute>, lits: Seq<Option<String>>)
    ensures
        spec_collect_options(a + b, lits, 0) == match spec_collect_options(a, lits, 0) {
            Err(e) => Err(e),
            Ok(x) => prepend(x, spec_collect_options(b, lits, 0)),
        },
{
    lemma_collect_options_prefix(a, b, lits, 0);
}


// ---------------------------------------------------------------------------
// The emitted tables
// ---------------------------------------------------------------------------

/// The values array of every option has `RETRO_NUM_CORE_OPTION_VALUES_MAX`
/// entries and ends with a null entry; its entries hold the option's values in
/// order, as many as fit before that last entry, and null entries after them.
pub proof fn lemma_values_array_shape(values: Seq<CoreOptionValue>)
    ensures
        value_entries(values).len() == RETRO_NUM_CORE_OPTION_VALUES_MAX,
        value_entries(values)[RETRO_NUM_CORE_OPTION_VALUES_MAX - 1] == (ValueEntryModel { value: None, label: None }),
        forall|i: int| 0 <= i < values.len() && i < RETRO_NUM_CORE_OPTION_VALUES_MAX - 1
            ==> (#[trigger] value_entries(values)[i]).value == Some(c_string(values[i].value)),
        forall|i: int| values.len() <= i < RETRO_NUM_CORE_OPTION_VALUES_MAX
            ==> #[trigger] value_entries(values)[i] == (ValueEntryModel { value: None, label: None }),
{
}

/// A literal's C string ends with a NUL byte, and what precedes it decodes as
/// UTF-8 to the literal's value.
pub proof fn lemma_c_string_decodes(l: StrLit)
    ensures
        c_string(l).bytes.last() == 0u8,
        decode_utf8(c_string(l).bytes.drop_last()) == l.value@,
{
    assert(c_string(l).bytes.drop_last() =~= encode_utf8(l.value@));
    encode_utf8_decode_utf8(l.value@);
}

/// The variable of an option decodes as UTF-8 to the option's description, a
/// semicolon and a space, and its values joined by `|`.
pub proof fn lemma_variable_decodes(o: CoreOptionV2Model)
    ensures
        decode_utf8(variable_entry(o).value.bytes) == o.desc.value@ + seq![';', ' '] + values_text(o.values),
{
    encode_utf8_decode_utf8(o.desc.value@ + seq![';', ' '] + values_text(o.values));
}

// ---------------------------------------------------------------------------
// The context method
// ---------------------------------------------------------------------------

/// The context method keeps exactly the parameters that are not the
/// environment callback, in their order.
pub proof fn lemma_kept_args_are_the_others(args: Seq<FnArg>, n: int)
    requires
        0 <= n <= args.len(),
        args.len() <= usize::MAX,
    ensures
        forall|i: int| 0 <= i < n ==> (!is_env_arg(args[i]) <==> #[trigger] kept_args(args, n).contains(i as usize)),
        forall|j: int, k: int| 0 <= j < k < kept_args(args, n).len() ==> kept_args(args, n)[j] < kept_args(args, n)[k],
        forall|j: int| 0 <= j < kept_args(args, n).len() ==> #[trigger] kept_args(args, n)[j] < n,
    decreases n,
{
    if n > 0 {
        lemma_kept_args_are_the_others(args, n - 1);
        let prev = kept_args(args, n - 1);
        assert forall|i: int| 0 <= i < n implies (!is_env_arg(args[i]) <==> #[trigger] kept_args(args, n).contains(i as usize)) by {
            if i < n - 1 {
                if !is_env_arg(args[n - 1]) {
                    if kept_args(args, n).contains(i as usize) {
                        let w = choose|w: int| 0 <= w < kept_args(args, n).len() && kept_args(args, n)[w] == i as usize;
                        if w < prev.len() {
                            assert(prev.contains(i as usize));
                        }
                    }
                    if prev.contains(i as usize) {
                        let w = choose|w: int| 0 <= w < prev.len() && prev[w] == i as usize;
                        assert(kept_args(args, n)[w] == i as usize);
                    }
                }
            } else {
                if !is_env_arg(args[n - 1]) {
                    assert(kept_args(args, n)[prev.len() as int] == (n - 1) as usize);
                } else {
                    if prev.contains((n - 1) as usize) {
                        let w = choose|w: int| 0 <= w < prev.len() && prev[w] == (n - 1) as usize;
                        assert(prev[w] < n - 1);
                    }
                }
            }
        }
    }
}


proof fn lemma_collect_categories_suffix(a: Seq<Attribute>, b: Seq<Attribute>, lits: Seq<Option<String>>, j: int)
    requires
        0 <= j <= b.len(),
    ensures
        spec_collect_categories(a + b, lits, a.len() + j) == spec_collect_categories(b, lits, j),
    decreases b.len() - j,
{
    if j < b.len() {
        lemma_collect_categories_suffix(a, b, lits, j + 1);
        assert((a + b)[a.len() + j] == b[j]);
    }
}

proof fn lemma_collect_categories_prefix(a: Seq<Attribute>, b: Seq<Attribute>, lits: Seq<Option<String>>, i: int)
    requires
        0 <= i <= a.len(),
    ensures
        spec_collect_categories(a + b, lits, i) == match spec_collect_categories(a, lits, i) {
            Err(e) => Err(e),
            Ok(x) => prepend(x, spec_collect_categories(b, lits, 0)),
        },
    decreases a.len() - i,
{
    if i < a.len() {
        lemma_collect_categories_prefix(a, b, lits, i + 1);
        assert((a + b)[i] == a[i]);
        if let Ok(x) = spec_collect_categories(a, lits, i + 1) {
            if let Ok(y) = spec_collect_categories(b, lits, 0) {
                if crate::derive::is_ident(a[i].path, categories_name()) {
                    if let Ok(cs) = spec_parse_categories(a[i].tokens@, lits) {
                        assert(cs + (x + y) =~= (cs + x) + y);
                    }
                }
            }
        }
    } else {
        lemma_collect_categories_suffix(a, b, lits, 0);
        if let Ok(y) = spec_collect_categories(b, lits, 0) {
            assert(Seq::<CoreOptionCategory>::empty() + y =~= y);
        }
    }
}

/// Categories declared in several attributes add up: the attributes `a`
/// followed by `b` declare the categories of `a` followed by those of `b`; an
/// error in `a` is reported before anything in `b` is read.
pub proof fn lemma_categories_of_attributes_add_up(a: Seq<Attribute>, b: Seq<Attribute>, lits: Seq<Option<String>>)
    ensures
        spec_collect_categories(a + b, lits, 0) == match spec_collect_categories(a, lits, 0) {
            Err(e) => Err(e),
            Ok(x) => prepend(x, spec_collect_categories(b, lits, 0)),
        },
{
    lemma_collect_categories_prefix(a, b, lits, 0);
}

/// The emitted tables, entry by entry: the option definitions and the
/// variables hold one entry per option and the categories one per category,
/// each built from that option (or category) alone, in order; each table then
/// ends with its terminating entry. A definition and the variable of the same
/// option share the key.
pub proof fn lemma_tables_entry_by_entry(os: Seq<CoreOptionV2Model>, cs: Seq<CoreOptionCategory>)
    ensures
        tables(os, cs).options.len() == os.len() + 1,
        tables(os, cs).variables.len() == os.len() + 1,
        tables(os, cs).categories.len() == cs.len() + 1,
        tables(os, cs).options[os.len() as int] is None,
        tables(os, cs).variables[os.len() as int] is None,
        tables(os, cs).categories[cs.len() as int] is None,
        forall|i: int| 0 <= i < os.len() ==> #[trigger] tables(os, cs).options[i] == Some(option_entry(os[i])),
        forall|i: int| 0 <= i < os.len() ==> #[trigger] tables(os, cs).variables[i] == Some(variable_entry(os[i])),
        forall|i: int| 0 <= i < cs.len() ==> #[trigger] tables(os, cs).categories[i] == Some(category_entry(cs[i])),
        forall|i: int| 0 <= i < os.len() ==> (#[trigger] tables(os, cs).options[i])->0.key == tables(os, cs).variables[i]->0.key,
{
}

/// Attributes other than `options` and `categories` change nothing: adding
/// one anywhere among a struct's attributes leaves what the derive macro emits,
/// or the error it reports, as it was.
pub proof fn lemma_other_attributes_change_nothing(a: Seq<Attribute>, x: Attribute, b: Seq<Attribute>, lits: Seq<Option<String>>)
    requires
        !crate::derive::is_ident(x.path, options_name()),
        !crate::derive::is_ident(x.path, categories_name()),
    ensures
        spec_derive(a + seq![x] + b, lits) == spec_derive(a + b, lits),
{
    assert(a + seq![x] + b =~= a + (seq![x] + b));
    lemma_options_of_attributes_add_up(a, seq![x] + b, lits);
    lemma_options_of_attributes_add_up(a, b, lits);
    lemma_categories_of_attributes_add_up(a, seq![x] + b, lits);
    lemma_categories_of_attributes_add_up(a, b, lits);
    assert((seq![x] + b)[0] == x);
    lemma_collect_options_suffix(seq![x], b, lits, 0);
    lemma_collect_categories_suffix(seq![x], b, lits, 0);
}


// ---------------------------------------------------------------------------
// Closing forms
// ---------------------------------------------------------------------------

/// `s` is a list of items separated by commas that does not end with one: it
/// has an odd length and a comma at each odd position.
pub open spec fn separated(s: Seq<TokenTree>) -> bool {
    &&& s.len() % 2 == 1
    &&& forall|k: int| 0 <= k && 2 * k + 1 < s.len() ==> #[trigger] is_comma(s, 2 * k + 1)
}

proof fn lemma_option_at_extended(s: Seq<TokenTree>, x: TokenTree, lits: Seq<Option<String>>, end: Place, i: int)
    requires
        0 <= i < s.len(),
    ensures
        spec_option_at(s.push(x), lits, end, i) == spec_option_at(s, lits, end, i),
{
    assert(s.push(x)[i] == s[i]);
}

proof fn lemma_options_trailing_comma_from(s: Seq<TokenTree>, comma: TokenTree, lits: Seq<Option<String>>, end: Place, i: int)
    requires
        separated(s),
        is_comma(seq![comma], 0),
        0 <= i < s.len(),
        i % 2 == 0,
    ensures
        spec_options(s.push(comma), lits, end, i) == spec_options(s, lits, end, i),
    decreases s.len() - i,
{
    let s2 = s.push(comma);
    lemma_option_at_extended(s, comma, lits, end, i);
    assert(s2[s.len() as int] == comma);
    if i + 1 < s.len() {
        assert(is_comma(s, 2 * (i / 2) + 1));
        assert(s2[i + 1] == s[i + 1]);
        assert(i + 2 < s.len());
        lemma_options_trailing_comma_from(s, comma, lits, end, i + 2);
    } else {
        assert(is_comma(s2, i + 1));
        assert(spec_options(s2, lits, end, i + 2) == spec_options(s, lits, end, i + 1));
    }
}

/// A trailing comma after the last option changes nothing: for any items
/// separated by commas, the parentheses `( items )` and `( items , )` read as
/// the same options, or fail with the same error, whatever follows them.
pub proof fn lemma_options_trailing_comma(
    id: usize,
    items: Vec<TokenTree>,
    with_comma: Vec<TokenTree>,
    comma: TokenTree,
    rest: Seq<TokenTree>,
    lits: Seq<Option<String>>,
)
    requires
        separated(items@),
        is_comma(seq![comma], 0),
        with_comma@ == items@.push(comma),
    ensures
        spec_read_options(seq![TokenTree::Group { id, delim: Delim::Paren, stream: with_comma }] + rest, lits)
            == spec_read_options(seq![TokenTree::Group { id, delim: Delim::Paren, stream: items }] + rest, lits),
        spec_parse_options(seq![TokenTree::Group { id, delim: Delim::Paren, stream: with_comma }] + rest, lits)
            == spec_parse_options(seq![TokenTree::Group { id, delim: Delim::Paren, stream: items }] + rest, lits),
{
    let t1 = seq![TokenTree::Group { id, delim: Delim::Paren, stream: items }] + rest;
    let t2 = seq![TokenTree::Group { id, delim: Delim::Paren, stream: with_comma }] + rest;
    assert(t1[0] == TokenTree::Group { id, delim: Delim::Paren, stream: items });
    assert(t2[0] == TokenTree::Group { id, delim: Delim::Paren, stream: with_comma });
    lemma_options_trailing_comma_from(items@, comma, lits, Place::EndOfGroup(id), 0);
    assert(leftover(t1, 1) == leftover(t2, 1)) by {
        if 1 < t1.len() {
            assert(t1[1] == rest[0]);
            assert(t2[1] == rest[0]);
        }
    }
}

proof fn lemma_category_at_extended(s: Seq<TokenTree>, x: TokenTree, lits: Seq<Option<String>>, end: Place, i: int)
    requires
        0 <= i < s.len(),
    ensures
        spec_category_at(s.push(x), lits, end, i) == spec_category_at(s, lits, end, i),
{
    assert(s.push(x)[i] == s[i]);
}

proof fn lemma_categories_trailing_comma_from(s: Seq<TokenTree>, comma: TokenTree, lits: Seq<Option<String>>, end: Place, i: int)
    requires
        separated(s),
        is_comma(seq![comma], 0),
        0 <= i < s.len(),
        i % 2 == 0,
    ensures
        spec_categories(s.push(comma), lits, end, i) == spec_categories(s, lits, end, i),
    decreases s.len() - i,
{
    let s2 = s.push(comma);
    lemma_category_at_extended(s, comma, lits, end, i);
    assert(s2[s.len() as int] == comma);
    if i + 1 < s.len() {
        assert(is_comma(s, 2 * (i / 2) + 1));
        assert(s2[i + 1] == s[i + 1]);
        assert(i + 2 < s.len());
        lemma_categories_trailing_comma_from(s, comma, lits, end, i + 2);
    } else {
        assert(is_comma(s2, i + 1));
        assert(spec_categories(s2, lits, end, i + 2) == spec_categories(s, lits, end, i + 1));
    }
}

/// A trailing comma after the last category changes nothing: for any items
/// separated by commas, the parentheses `( items )` and `( items , )` read as
/// the same categories, or fail with the same error, whatever follows them.
pub proof fn lemma_categories_trailing_comma(
    id: usize,
    items: Vec<TokenTree>,
    with_comma: Vec<TokenTree>,
    comma: TokenTree,
    rest: Seq<TokenTree>,
    lits: Seq<Option<String>>,
)
    requires
        separated(items@),
        is_comma(seq![comma], 0),
        with_comma@ == items@.push(comma),
    ensures
        spec_read_categories(seq![TokenTree::Group { id, delim: Delim::Paren, stream: with_comma }] + rest, lits)
            == spec_read_categories(seq![TokenTree::Group { id, delim: Delim::Paren, stream: items }] + rest, lits),
        spec_parse_categories(seq![TokenTree::Group { id, delim: Delim::Paren, stream: with_comma }] + rest, lits)
            == spec_parse_categories(seq![TokenTree::Group { id, delim: Delim::Paren, stream: items }] + rest, lits),
{
    let t1 = seq![TokenTree::Group { id, delim: Delim::Paren, stream: items }] + rest;
    let t2 = seq![TokenTree::Group { id, delim: Delim::Paren, stream: with_comma }] + rest;
    assert(t1[0] == TokenTree::Group { id, delim: Delim::Paren, stream: items });
    assert(t2[0] == TokenTree::Group { id, delim: Delim::Paren, stream: with_comma });
    lemma_categories_trailing_comma_from(items@, comma, lits, Place::EndOfGroup(id), 0);
    assert(leftover(t1, 1) == leftover(t2, 1)) by {
        if 1 < t1.len() {
            assert(t1[1] == rest[0]);
            assert(t2[1] == rest[0]);
        }
    }
}

/// The four closings of an option in the second form agree but for the
/// default value. After the values group, nothing and a lone comma read
/// alike; a default value, with or without a comma after it, reads alike; and
/// a default value changes only the default of the option read, neither what
/// else is read nor which error comes.
pub proof fn lemma_option_v2_closings(p: Seq<TokenTree>, comma: TokenTree, d: TokenTree, lits: Seq<Option<String>>, end: Place)
    requires
        p.len() == 13,
        is_comma(seq![comma], 0),
        str_at(seq![d], lits, 0) is Some,
    ensures
        spec_option_v2(p.push(comma), lits, end) == spec_option_v2(p, lits, end),
        spec_option_v2(p + seq![comma, d, comma], lits, end) == spec_option_v2(p + seq![comma, d], lits, end),
        spec_option_v2(p + seq![comma, d], lits, end) == match spec_option_v2(p, lits, end) {
            Ok((o, u)) => Ok::<(CoreOptionV2Model, Option<Place>), ParseError>((CoreOptionV2Model { default_value: str_at(seq![d], lits, 0), ..o }, u)),
            Err(e) => Err(e),
        },
{
    let f2 = p.push(comma);
    let f3 = p + seq![comma, d];
    let f4 = p + seq![comma, d, comma];
    assert forall|k: int| 0 <= k < 13 implies f2[k] == p[k] && f3[k] == p[k] && f4[k] == p[k] by {}
    assert(f2[13] == comma && f3[13] == comma && f4[13] == comma);
    assert(f3[14] == d && f4[14] == d && f4[15] == comma);
    assert(str_at(f3, lits, 14) == str_at(seq![d], lits, 0));
    assert(str_at(f4, lits, 14) == str_at(seq![d], lits, 0));
    assert(str_at(f2, lits, 14) is None);
    assert(str_at(p, lits, 13) is None);
}

// ---------------------------------------------------------------------------
// Lists read group by group
// ---------------------------------------------------------------------------

proof fn lemma_options_group_by_group_from(s: Seq<TokenTree>, lits: Seq<Option<String>>, end: Place, os: Seq<CoreOptionV2Model>, k: int)
    requires
        comma_list(s, os.len() as int),
        forall|j: int| 0 <= j < os.len() ==> (#[trigger] spec_option_at(s, lits, end, 2 * j) matches Ok((o, _)) && o == os[j]),
        0 <= k <= os.len(),
    ensures
        spec_options(s, lits, end, 2 * k) matches Ok((r, _)) && r == os.subrange(k, os.len() as int),
    decreases os.len() - k,
{
    if k < os.len() {
        assert(spec_option_at(s, lits, end, 2 * k) matches Ok((o, _)) && o == os[k]);
        if 2 * k + 1 < s.len() {
            assert(is_comma(s, 2 * k + 1));
        }
        lemma_options_group_by_group_from(s, lits, end, os, k + 1);
        if k + 1 < os.len() {
            assert(2 * k + 1 < s.len());
        } else {
            assert(2 * (k + 1) >= s.len());
            if 2 * k + 1 >= s.len() {
                assert(spec_options(s, lits, end, 2 * k + 1) == spec_options(s, lits, end, 2 * k + 2));
            }
        }
        assert(seq![os[k]] + os.subrange(k + 1, os.len() as int) =~= os.subrange(k, os.len() as int));
    } else {
        assert(os.subrange(k, os.len() as int) =~= Seq::<CoreOptionV2Model>::empty());
    }
}

/// Options are read group by group: where the parentheses hold `n` groups
/// separated by commas, with or without a trailing comma, and group `k` reads
/// as the option `os[k]` (in the second form where its contents read in that
/// form, and otherwise in the first form, upgraded), the parentheses read as
/// exactly `os`, whatever tokens follow them.
pub proof fn lemma_options_read_group_by_group(
    id: usize,
    items: Vec<TokenTree>,
    rest: Seq<TokenTree>,
    lits: Seq<Option<String>>,
    os: Seq<CoreOptionV2Model>,
)
    requires
        comma_list(items@, os.len() as int),
        forall|k: int| 0 <= k < os.len() ==> (#[trigger] spec_option_at(items@, lits, Place::EndOfGroup(id), 2 * k) matches Ok((o, _)) && o == os[k]),
    ensures
        spec_read_options(seq![TokenTree::Group { id, delim: Delim::Paren, stream: items }] + rest, lits) matches Ok((r, _)) && r == os,
{
    let t = seq![TokenTree::Group { id, delim: Delim::Paren, stream: items }] + rest;
    assert(t[0] == TokenTree::Group { id, delim: Delim::Paren, stream: items });
    lemma_options_group_by_group_from(items@, lits, Place::EndOfGroup(id), os, 0);
    assert(os.subrange(0, os.len() as int) =~= os);
}

proof fn lemma_categories_group_by_group_from(s: Seq<TokenTree>, lits: Seq<Option<String>>, end: Place, cs: Seq<CoreOptionCategory>, k: int)
    requires
        comma_list(s, cs.len() as int),
        forall|j: int| 0 <= j < cs.len() ==> (#[trigger] spec_category_at(s, lits, end, 2 * j) matches Ok((c, _)) && c == cs[j]),
        0 <= k <= cs.len(),
    ensures
        spec_categories(s, lits, end, 2 * k) matches Ok((r, _)) && r == cs.subrange(k, cs.len() as int),
    decreases cs.len() - k,
{
    if k < cs.len() {
        assert(spec_category_at(s, lits, end, 2 * k) matches Ok((c, _)) && c == cs[k]);
        if 2 * k + 1 < s.len() {
            assert(is_comma(s, 2 * k + 1));
        }
        lemma_categories_group_by_group_from(s, lits, end, cs, k + 1);
        if k + 1 < cs.len() {
            assert(2 * k + 1 < s.len());
        } else {
            assert(2 * (k + 1) >= s.len());
            if 2 * k + 1 >= s.len() {
                assert(spec_categories(s, lits, end, 2 * k + 1) == spec_categories(s, lits, end, 2 * k + 2));
            }
        }
        assert(seq![cs[k]] + cs.subrange(k + 1, cs.len() as int) =~= cs.subrange(k, cs.len() as int));
    } else {
        assert(cs.subrange(k, cs.len() as int) =~= Seq::<CoreOptionCategory>::empty());
    }
}

/// Categories are read group by group: where the parentheses hold `n` groups
/// separated by commas, with or without a trailing comma, and group `k` reads
/// as the category `cs[k]`, the parentheses read as exactly `cs`, whatever
/// tokens follow them; in particular `()` reads as no category.
pub proof fn lemma_categories_read_group_by_group(
    id: usize,
    items: Vec<TokenTree>,
    rest: Seq<TokenTree>,
    lits: Seq<Option<String>>,
    cs: Seq<CoreOptionCategory>,
)
    requires
        comma_list(items@, cs.len() as int),
        forall|k: int| 0 <= k < cs.len() ==> (#[trigger] spec_category_at(items@, lits, Place::EndOfGroup(id), 2 * k) matches Ok((c, _)) && c == cs[k]),
    ensures
        spec_read_categories(seq![TokenTree::Group { id, delim: Delim::Paren, stream: items }] + rest, lits) matches Ok((r, _)) && r == cs,
{
    let t = seq![TokenTree::Group { id, delim: Delim::Paren, stream: items }] + rest;
    assert(t[0] == TokenTree::Group { id, delim: Delim::Paren, stream: items });
    lemma_categories_group_by_group_from(items@, lits, Place::EndOfGroup(id), cs, 0);
    assert(cs.subrange(0, cs.len() as int) =~= cs);
}

// ---------------------------------------------------------------------------
// Joining the results of several attributes
// ---------------------------------------------------------------------------

/// Joining options distributes over appending lists of attributes' results:
/// joining `a ++ b` gives the options joined from `a` followed by those from
/// `b`; joining nothing gives no option; joining one result gives its options.
pub proof fn lemma_options_concat_distributes(a: Seq<CoreOptions>, b: Seq<CoreOptions>, x: CoreOptions)
    ensures
        (a + b).map_values(|o: CoreOptions| o@).flatten()
            == a.map_values(|o: CoreOptions| o@).flatten() + b.map_values(|o: CoreOptions| o@).flatten(),
        Seq::<CoreOptions>::empty().map_values(|o: CoreOptions| o@).flatten() == Seq::<CoreOptionV2Model>::empty(),
        seq![x].map_values(|o: CoreOptions| o@).flatten() == x@,
{
    assert((a + b).map_values(|o: CoreOptions| o@) =~= a.map_values(|o: CoreOptions| o@) + b.map_values(|o: CoreOptions| o@));
    lemma_flatten_concat(a.map_values(|o: CoreOptions| o@), b.map_values(|o: CoreOptions| o@));
    assert(Seq::<CoreOptions>::empty().map_values(|o: CoreOptions| o@) =~= Seq::<Seq<CoreOptionV2Model>>::empty());
    assert(seq![x].map_values(|o: CoreOptions| o@) =~= seq![x@]);
    seq![x@].lemma_flatten_one_element();
}

/// Joining categories distributes over appending lists of attributes'
/// results: joining `a ++ b` gives the categories joined from `a` followed by
/// those from `b`; joining nothing gives no category; joining one result gives
/// its categories.
pub proof fn lemma_categories_concat_distributes(a: Seq<CoreOptionCategories>, b: Seq<CoreOptionCategories>, x: CoreOptionCategories)
    ensures
        (a + b).map_values(|c: CoreOptionCategories| c.0@).flatten()
            == a.map_values(|c: CoreOptionCategories| c.0@).flatten() + b.map_values(|c: CoreOptionCategories| c.0@).flatten(),
        Seq::<CoreOptionCategories>::empty().map_values(|c: CoreOptionCategories| c.0@).flatten() == Seq::<CoreOptionCategory>::empty(),
        seq![x].map_values(|c: CoreOptionCategories| c.0@).flatten() == x.0@,
{
    assert((a + b).map_values(|c: CoreOptionCategories| c.0@) =~= a.map_values(|c: CoreOptionCategories| c.0@) + b.map_values(|c: CoreOptionCategories| c.0@));
    lemma_flatten_concat(a.map_values(|c: CoreOptionCategories| c.0@), b.map_values(|c: CoreOptionCategories| c.0@));
    assert(Seq::<CoreOptionCategories>::empty().map_values(|c: CoreOptionCategories| c.0@) =~= Seq::<Seq<CoreOptionCategory>>::empty());
    assert(seq![x].map_values(|c: CoreOptionCategories| c.0@) =~= seq![x.0@]);
    seq![x.0@].lemma_flatten_one_element();
}

// ---------------------------------------------------------------------------
// What the emitted strings say
// ---------------------------------------------------------------------------

/// The emitted byte string `b` reads back as the literal `l`: its bytes are a
/// NUL-terminated UTF-8 text that decodes to `l`'s value, at `l`'s span.
pub open spec fn reads_back_as(b: ByteLitModel, l: StrLit) -> bool {
    &&& b.bytes.len() > 0
    &&& b.bytes.last() == 0u8
    &&& decode_utf8(b.bytes.drop_last()) == l.value@
    &&& b.span == Some(l.id)
}

/// The emitted byte string `b` of an optional field: it reads back as the
/// field's literal, or is the empty C string where the field is absent.
pub open spec fn reads_back_as_or_empty(b: ByteLitModel, l: Option<StrLit>) -> bool {
    match l {
        Some(l) => reads_back_as(b, l),
        None => b.bytes == seq![0u8],
    }
}

proof fn lemma_c_string_reads_back(l: StrLit)
    ensures
        reads_back_as(c_string(l), l),
{
    assert(c_string(l).bytes.drop_last() =~= encode_utf8(l.value@));
    encode_utf8_decode_utf8(l.value@);
}

/// Each option definition says what its option says: every field of the
/// definition of option `i` is the C string of the same-named field of that
/// option (its key, description, information, categorized description and
/// information, category key and default value); its values array holds, in
/// order, the C strings of the option's values and labels, and null pointers
/// after them.
pub proof fn lemma_definition_fields(os: Seq<CoreOptionV2Model>, cs: Seq<CoreOptionCategory>, i: int)
    requires
        0 <= i < os.len(),
    ensures
        tables(os, cs).options[i] matches Some(d) && {
            &&& reads_back_as(d.key, os[i].key)
            &&& reads_back_as(d.desc, os[i].desc)
            &&& reads_back_as(d.info, os[i].info)
            &&& reads_back_as_or_empty(d.desc_categorized, os[i].desc_categorized)
            &&& reads_back_as_or_empty(d.info_categorized, os[i].info_categorized)
            &&& reads_back_as_or_empty(d.category_key, os[i].category_key)
            &&& match os[i].default_value {
                Some(l) => d.default_value matches Some(b) && reads_back_as(b, l),
                None => d.default_value is None,
            }
            &&& d.values.len() == RETRO_NUM_CORE_OPTION_VALUES_MAX
            &&& forall|j: int| 0 <= j < os[i].values.len() && j < RETRO_NUM_CORE_OPTION_VALUES_MAX - 1 ==> {
                &&& (#[trigger] d.values[j]).value matches Some(b) && reads_back_as(b, os[i].values[j].value)
                &&& match os[i].values[j].label {
                    Some(l) => d.values[j].label matches Some(b) && reads_back_as(b, l),
                    None => d.values[j].label is None,
                }
            }
            &&& forall|j: int| 0 <= j < RETRO_NUM_CORE_OPTION_VALUES_MAX && (j >= os[i].values.len() || j == RETRO_NUM_CORE_OPTION_VALUES_MAX - 1)
                ==> (#[trigger] d.values[j]).value is None && d.values[j].label is None
        },
{
    let o = os[i];
    assert(tables(os, cs).options[i] == Some(option_entry(o)));
    lemma_c_string_reads_back(o.key);
    lemma_c_string_reads_back(o.desc);
    lemma_c_string_reads_back(o.info);
    if let Some(l) = o.desc_categorized {
        lemma_c_string_reads_back(l);
    }
    if let Some(l) = o.info_categorized {
        lemma_c_string_reads_back(l);
    }
    if let Some(l) = o.category_key {
        lemma_c_string_reads_back(l);
    }
    if let Some(l) = o.default_value {
        lemma_c_string_reads_back(l);
    }
    let d = option_entry(o);
    assert forall|j: int| 0 <= j < o.values.len() && j < RETRO_NUM_CORE_OPTION_VALUES_MAX - 1 implies {
        &&& (#[trigger] d.values[j]).value matches Some(b) && reads_back_as(b, o.values[j].value)
        &&& match o.values[j].label {
            Some(l) => d.values[j].label matches Some(b) && reads_back_as(b, l),
            None => d.values[j].label is None,
        }
    } by {
        lemma_c_string_reads_back(o.values[j].value);
        if let Some(l) = o.values[j].label {
            lemma_c_string_reads_back(l);
        }
    }
}

/// Each category entry says what its category says: the entry of category
/// `k` holds the C strings of that category's key, description and
/// information, each in its own field.
pub proof fn lemma_category_fields(os: Seq<CoreOptionV2Model>, cs: Seq<CoreOptionCategory>, k: int)
    requires
        0 <= k < cs.len(),
    ensures
        tables(os, cs).categories[k] matches Some(e) && {
            &&& reads_back_as(e.key, cs[k].key)
            &&& reads_back_as(e.desc, cs[k].desc)
            &&& reads_back_as(e.info, cs[k].info)
        },
{
    assert(tables(os, cs).categories[k] == Some(category_entry(cs[k])));
    lemma_c_string_reads_back(cs[k].key);
    lemma_c_string_reads_back(cs[k].desc);
    lemma_c_string_reads_back(cs[k].info);
}

// ---------------------------------------------------------------------------
// Plain string literals
// ---------------------------------------------------------------------------

proof fn lemma_plain_body_from(b: Seq<char>, i: int)
    requires
        forall|k: int| 0 <= k < b.len() ==> #[trigger] b[k] != '\\' && b[k] != '"' && b[k] != '\r',
        1 <= i <= b.len() + 1,
    ensures
        cooked_end(seq!['"'] + b + seq!['"'], i) == b.len() + 2,
        cooked_value(seq!['"'] + b + seq!['"'], i) == b.subrange(i - 1, b.len() as int),
    decreases b.len() + 1 - i,
{
    let s = seq!['"'] + b + seq!['"'];
    if i == b.len() + 1 {
        assert(s[i] == '"');
        assert(b.subrange(i - 1, b.len() as int) =~= Seq::<char>::empty());
    } else {
        assert(s[i] == b[i - 1]);
        lemma_plain_body_from(b, i + 1);
        assert(seq![b[i - 1]] + b.subrange(i, b.len() as int) =~= b.subrange(i - 1, b.len() as int));
    }
}

/// A plain string literal whose body holds no backslash, no quote and no
/// carriage return is a string literal the library decodes, and its value is
/// its body as written (an apostrophe, for one, is an ordinary character of
/// it); the table of literals gives exactly that value for such a text.
pub proof fn lemma_plain_string_literal(b: Seq<char>, repr: String, value: Option<String>)
    requires
        forall|k: int| 0 <= k < b.len() ==> #[trigger] b[k] != '\\' && b[k] != '"' && b[k] != '\r',
        repr@ == seq!['"'] + b + seq!['"'],
    ensures
        str_literal_text(repr@),
        string_value(repr@) == b,
        decoded_as(repr, value) ==> (value matches Some(v) && v@ == b),
{
    let s = seq!['"'] + b + seq!['"'];
    assert(s[0] == '"');
    lemma_plain_body_from(b, 1);
    assert(b.subrange(0, b.len() as int) =~= b);
    assert(literal_end(s) == s.len());
}

// ---------------------------------------------------------------------------
// The guarding feature
// ---------------------------------------------------------------------------

/// The argument `arg` names no feature: it is neither a bare name nor a literal
/// (or name-value pair) whose literal is a string.
pub open spec fn names_nothing(arg: MetaArg, lits: Seq<Option<String>>) -> bool {
    match arg {
        MetaArg::Other => true,
        MetaArg::Path { .. } => false,
        MetaArg::Lit { index } => index >= lits.len() || lits[index as int] is None,
        MetaArg::NameValue { index } => index >= lits.len() || lits[index as int] is None,
    }
}

proof fn lemma_first_str_skips(args: Seq<MetaArg>, lits: Seq<Option<String>>, j: int, i: int)
    requires
        0 <= i <= j <= args.len(),
        forall|k: int| 0 <= k < j ==> names_nothing(#[trigger] args[k], lits),
    ensures
        first_str(args, lits, i) == first_str(args, lits, j),
    decreases j - i,
{
    if i < j {
        assert(names_nothing(args[i], lits));
        lemma_first_str_skips(args, lits, j, i + 1);
    }
}

/// The feature is named by the first argument that names one, unaltered:
/// where every argument before position `j` names nothing, and argument `j` is
/// a literal or a name-value pair whose literal is the string `v`, the feature
/// is `unstable-` followed by `v`; where it is a bare name, `unstable-`
/// followed by that name.
pub proof fn lemma_feature_is_the_first_name(args: Seq<MetaArg>, lits: Seq<Option<String>>, j: int)
    requires
        0 <= j < args.len(),
        forall|k: int| 0 <= k < j ==> names_nothing(#[trigger] args[k], lits),
    ensures
        match args[j] {
            MetaArg::Lit { index } => index < lits.len() ==> match lits[index as int] {
                Some(v) => spec_feature_name(args, lits) == "unstable-"@ + v@,
                None => true,
            },
            MetaArg::NameValue { index } => index < lits.len() ==> match lits[index as int] {
                Some(v) => spec_feature_name(args, lits) == "unstable-"@ + v@,
                None => true,
            },
            MetaArg::Path { ident } => spec_feature_name(args, lits) == "unstable-"@ + ident@,
            MetaArg::Other => true,
        },
{
    lemma_first_str_skips(args, lits, j, 0);
}

/// Where no argument names a feature, the feature is `unstable`.
pub proof fn lemma_feature_without_a_name(args: Seq<MetaArg>, lits: Seq<Option<String>>)
    requires
        forall|k: int| 0 <= k < args.len() ==> names_nothing(#[trigger] args[k], lits),
    ensures
        spec_feature_name(args, lits) == "unstable"@,
{
    lemma_first_str_skips(args, lits, args.len() as int, 0);
}

// ---------------------------------------------------------------------------
// The attributes of a context method
// ---------------------------------------------------------------------------

/// The context method keeps exactly the attributes whose path does not end in
/// `context`, in their order.
pub proof fn lemma_kept_attrs_are_the_others(attrs: Seq<AttrPath>, n: int)
    requires
        0 <= n <= attrs.len(),
        attrs.len() <= usize::MAX,
        attrs_wf(attrs),
    ensures
        forall|i: int| 0 <= i < n ==> (attrs[i].segments@[attrs[i].segments.len() - 1].ident@ != "context"@
            <==> #[trigger] kept_attrs(attrs, n).contains(i as usize)),
        forall|j: int, k: int| 0 <= j < k < kept_attrs(attrs, n).len() ==> kept_attrs(attrs, n)[j] < kept_attrs(attrs, n)[k],
        forall|j: int| 0 <= j < kept_attrs(attrs, n).len() ==> #[trigger] kept_attrs(attrs, n)[j] < n,
    decreases n,
{
    if n > 0 {
        lemma_kept_attrs_are_the_others(attrs, n - 1);
        let prev = kept_attrs(attrs, n - 1);
        let last_is_context = attrs[n - 1].segments@[attrs[n - 1].segments.len() - 1].ident@ == "context"@;
        assert forall|i: int| 0 <= i < n implies (attrs[i].segments@[attrs[i].segments.len() - 1].ident@ != "context"@
            <==> #[trigger] kept_attrs(attrs, n).contains(i as usize)) by {
            if i < n - 1 {
                if !last_is_context {
                    if kept_attrs(attrs, n).contains(i as usize) {
                        let w = choose|w: int| 0 <= w < kept_attrs(attrs, n).len() && kept_attrs(attrs, n)[w] == i as usize;
                        if w < prev.len() {
                            assert(prev.contains(i as usize));
                        }
                    }
                    if prev.contains(i as usize) {
                        let w = choose|w: int| 0 <= w < prev.len() && prev[w] == i as usize;
                        assert(kept_attrs(attrs, n)[w] == i as usize);
                    }
                }
            } else {
                if !last_is_context {
                    assert(kept_attrs(attrs, n)[prev.len() as int] == (n - 1) as usize);
                } else {
                    if prev.contains((n - 1) as usize) {
                        let w = choose|w: int| 0 <= w < prev.len() && prev[w] == (n - 1) as usize;
                        assert(prev[w] < n - 1);
                    }
                }
            }
        }
    }
}

// ---------------------------------------------------------------------------
// Escapes and raw strings
// ---------------------------------------------------------------------------

/// The simple escape that writes the character `c`, if it has one.
pub open spec fn escape_of(c: char) -> Option<char> {
    if c == '\n' {
        Some('n')
    } else if c == '\r' {
        Some('r')
    } else if c == '\t' {
        Some('t')
    } else if c == '\\' {
        Some('\\')
    } else if c == '\0' {
        Some('0')
    } else if c == '"' {
        Some('"')
    } else if c == '\'' {
        Some('\'')
    } else {
        None
    }
}

/// The body of a plain string literal that writes the text `t`: character
/// `k` as itself, or, where `esc[k]` holds and it has one, as its simple escape.
pub open spec fn written(t: Seq<char>, esc: Seq<bool>) -> Seq<char>
    decreases t.len(),
{
    if t.len() == 0 || esc.len() == 0 {
        Seq::empty()
    } else {
        let piece = if esc[0] && escape_of(t[0]) is Some {
            seq!['\\', escape_of(t[0])->0]
        } else {
            seq![t[0]]
        };
        piece + written(t.drop_first(), esc.drop_first())
    }
}

/// A way of writing the text `t` in which every backslash, quote and carriage
/// return is escaped.
pub open spec fn escapes_what_it_must(t: Seq<char>, esc: Seq<bool>) -> bool {
    &&& esc.len() == t.len()
    &&& forall|k: int| 0 <= k < t.len() && (t[k] == '\\' || t[k] == '"' || t[k] == '\r') ==> #[trigger] esc[k]
}

proof fn lemma_written_reads_back(p: Seq<char>, t: Seq<char>, esc: Seq<bool>)
    requires
        escapes_what_it_must(t, esc),
    ensures
        cooked_end(p + written(t, esc) + seq!['"'], p.len() as int) == p.len() + written(t, esc).len() + 1,
        cooked_value(p + written(t, esc) + seq!['"'], p.len() as int) == t,
    decreases t.len(),
{
    let s = p + written(t, esc) + seq!['"'];
    let i = p.len() as int;
    if t.len() == 0 {
        assert(s[i] == '"');
        assert(t =~= Seq::<char>::empty());
    } else {
        let t1 = t.drop_first();
        let e1 = esc.drop_first();
        assert(escapes_what_it_must(t1, e1)) by {
            assert forall|k: int| 0 <= k < t1.len() && (t1[k] == '\\' || t1[k] == '"' || t1[k] == '\r') implies #[trigger] e1[k] by {
                assert(t1[k] == t[k + 1]);
                assert(esc[k + 1]);
            }
        }
        if esc[0] && escape_of(t[0]) is Some {
            let e = escape_of(t[0])->0;
            let p2 = p + seq!['\\', e];
            assert(s =~= p2 + written(t1, e1) + seq!['"']);
            assert(s[i] == '\\');
            assert(s[i + 1] == e);
            lemma_written_reads_back(p2, t1, e1);
            assert(seq![t[0]] + t1 =~= t);
        } else {
            let p2 = p.push(t[0]);
            assert(s =~= p2 + written(t1, e1) + seq!['"']);
            assert(s[i] == t[0]);
            lemma_written_reads_back(p2, t1, e1);
            assert(seq![t[0]] + t1 =~= t);
        }
    }
}

/// Whatever is written reads back: a plain string literal that writes the
/// text `t`, each character as itself or as its simple escape (backslashes,
/// quotes and carriage returns always escaped), is a string literal the
/// library decodes, and its value is `t`; the table of literals gives exactly
/// `t` for it.
pub proof fn lemma_escaped_string_literal(t: Seq<char>, esc: Seq<bool>, repr: String, value: Option<String>)
    requires
        escapes_what_it_must(t, esc),
        repr@ == seq!['"'] + written(t, esc) + seq!['"'],
    ensures
        str_literal_text(repr@),
        string_value(repr@) == t,
        decoded_as(repr, value) ==> (value matches Some(v) && v@ == t),
{
    let s = repr@;
    assert(s[0] == '"');
    lemma_written_reads_back(seq!['"'], t, esc);
    assert(literal_end(s) == s.len());
}

proof fn lemma_raw_body_from(pre: Seq<char>, b: Seq<char>, n: nat, i: int)
    requires
        forall|k: int| 0 <= k < b.len() ==> #[trigger] b[k] != '"' && b[k] != '\r',
        pre.len() <= i <= pre.len() + b.len(),
    ensures
        raw_end(pre + b + seq!['"'] + Seq::new(n, |_k: int| '#'), i, n) == pre.len() + b.len() + 1 + n,
        raw_value(pre + b + seq!['"'] + Seq::new(n, |_k: int| '#'), i, n) == b.subrange(i - pre.len(), b.len() as int),
    decreases pre.len() + b.len() - i,
{
    let s = pre + b + seq!['"'] + Seq::new(n, |_k: int| '#');
    if i == pre.len() + b.len() {
        assert(s[i] == '"');
        lemma_hash_run_of_hashes(s, i + 1, n);
        assert(b.subrange(i - pre.len(), b.len() as int) =~= Seq::<char>::empty());
    } else {
        assert(s[i] == b[i - pre.len()]);
        lemma_raw_body_from(pre, b, n, i + 1);
        assert(seq![b[i - pre.len()]] + b.subrange(i + 1 - pre.len(), b.len() as int) =~= b.subrange(i - pre.len(), b.len() as int));
    }
}

proof fn lemma_hash_run_of_hashes(s: Seq<char>, j: int, n: nat)
    requires
        0 <= j,
        j + n == s.len(),
        forall|k: int| j <= k < s.len() ==> #[trigger] s[k] == '#',
    ensures
        hash_run(s, j) == n,
    decreases n,
{
    if n > 0 {
        lemma_hash_run_of_hashes(s, j + 1, (n - 1) as nat);
    }
}

/// A raw string literal reads as its body, as written: with `n` hashes (at
/// most 255) around a body that holds no quote and no carriage return, it is
/// a string literal the library decodes, and its value is the body; the table
/// of literals gives exactly the body for it.
pub proof fn lemma_raw_string_literal(b: Seq<char>, n: nat, repr: String, value: Option<String>)
    requires
        n <= 255,
        forall|k: int| 0 <= k < b.len() ==> #[trigger] b[k] != '"' && b[k] != '\r',
        repr@ == seq!['r'] + Seq::new(n, |_k: int| '#') + seq!['"'] + b + seq!['"'] + Seq::new(n, |_k: int| '#'),
    ensures
        str_literal_text(repr@),
        string_value(repr@) == b,
        decoded_as(repr, value) ==> (value matches Some(v) && v@ == b),
{
    let pre = seq!['r'] + Seq::new(n, |_k: int| '#') + seq!['"'];
    let s = repr@;
    assert(s =~= pre + b + seq!['"'] + Seq::new(n, |_k: int| '#'));
    assert(s[0] == 'r');
    assert(s[1 + n as int] == '"');
    assert(hash_run(s, 1) == n) by {
        lemma_hash_run_prefix(s, 1, n);
    }
    lemma_raw_body_from(pre, b, n, pre.len() as int);
    assert(b.subrange(0, b.len() as int) =~= b);
    assert(literal_end(s) == s.len());
}

proof fn lemma_hash_run_prefix(s: Seq<char>, j: int, n: nat)
    requires
        0 <= j,
        j + n < s.len(),
        forall|k: int| j <= k < j + n ==> #[trigger] s[k] == '#',
        s[j + n] != '#',
    ensures
        hash_run(s, j) == n,
    decreases n,
{
    if n > 0 {
        lemma_hash_run_prefix(s, j + 1, (n - 1) as nat);
    }
}

// ---------------------------------------------------------------------------
// The arguments a context method forwards
// ---------------------------------------------------------------------------

/// The context method forwards exactly the parameters that are typed, bind a
/// plain identifier, and are not the environment callback, in their order.
pub proof fn lemma_call_args_are_the_named_others(args: Seq<FnArg>, n: int)
    requires
        0 <= n <= args.len(),
        args.len() <= usize::MAX,
    ensures
        forall|i: int| 0 <= i < n ==> ((args[i] matches FnArg::Typed { binds_ident: true, .. } && !is_env_arg(args[i]))
            <==> #[trigger] call_positions(args, n).contains(i as usize)),
        forall|j: int, k: int| 0 <= j < k < call_positions(args, n).len() ==> call_positions(args, n)[j] < call_positions(args, n)[k],
        forall|j: int| 0 <= j < call_positions(args, n).len() ==> #[trigger] call_positions(args, n)[j] < n,
    decreases n,
{
    if n > 0 {
        lemma_call_args_are_the_named_others(args, n - 1);
        let prev = call_positions(args, n - 1);
        let added = args[n - 1] matches FnArg::Typed { binds_ident: true, .. } && !is_env_arg(args[n - 1]);
        if added {
            assert(call_positions(args, n) == prev.push((n - 1) as usize));
        } else {
            assert(call_positions(args, n) == prev);
        }
        assert forall|i: int| 0 <= i < n implies ((args[i] matches FnArg::Typed { binds_ident: true, .. } && !is_env_arg(args[i]))
            <==> #[trigger] call_positions(args, n).contains(i as usize)) by {
            if i < n - 1 {
                if added {
                    if call_positions(args, n).contains(i as usize) {
                        let w = choose|w: int| 0 <= w < call_positions(args, n).len() && call_positions(args, n)[w] == i as usize;
                        if w < prev.len() {
                            assert(prev.contains(i as usize));
                        }
                    }
                    if prev.contains(i as usize) {
                        let w = choose|w: int| 0 <= w < prev.len() && prev[w] == i as usize;
                        assert(call_positions(args, n)[w] == i as usize);
                    }
                }
            } else {
                if added {
                    assert(call_positions(args, n)[prev.len() as int] == (n - 1) as usize);
                } else {
                    if prev.contains((n - 1) as usize) {
                        let w = choose|w: int| 0 <= w < prev.len() && prev[w] == (n - 1) as usize;
                        assert(prev[w] < n - 1);
                    }
                }
            }
        }
    }
}

// ---------------------------------------------------------------------------
// The variables and the unstable notice
// ---------------------------------------------------------------------------

/// The variable of option `i` has that option's key: its key reads back as the
/// option's key.
pub proof fn lemma_variable_key(os: Seq<CoreOptionV2Model>, cs: Seq<CoreOptionCategory>, i: int)
    requires
        0 <= i < os.len(),
    ensures
        tables(os, cs).variables[i] matches Some(v) && reads_back_as(v.key, os[i].key),
{
    assert(tables(os, cs).variables[i] == Some(variable_entry(os[i])));
    lemma_c_string_reads_back(os[i].key);
}

/// The notice of an unstable item names its feature: the feature stands in the
/// notice, unaltered, at the same place whatever it is, and different features
/// give different notices.
pub proof fn lemma_notice_names_the_feature(f: Seq<char>, g: Seq<char>)
    ensures
        notice_text(f).subrange(47, 47 + f.len() as int) == f,
        notice_text(f) == notice_text(g) ==> f == g,
{
    reveal_strlit("# This feature is unstable and guarded by the `");
    let pre = "# This feature is unstable and guarded by the `"@;
    assert(pre.len() == 47);
    let post = "` feature flag.\nPlease be advised that this feature might change without further noticeand no guarantees about its stability can be made."@;
    assert(notice_text(f) == pre + f + post);
    assert(notice_text(f).subrange(47, 47 + f.len() as int) =~= f);
    if notice_text(f) == notice_text(g) {
        assert((pre + f + post).len() == (pre + g + post).len());
        assert(f.len() == g.len());
        assert(notice_text(g).subrange(47, 47 + g.len() as int) =~= g);
    }
}

} // verus!
