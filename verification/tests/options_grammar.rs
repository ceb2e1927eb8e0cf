use rust_libretro_proc::categories::CoreOptionCategories;
use rust_libretro_proc::error::{ErrorKind, ParseError, Place};
use rust_libretro_proc::options::{Concat, CoreOption, CoreOptionV2, CoreOptions};
use rust_libretro_proc::tokens::{decode_literals, Delim, TokenTree};

/// Builds token trees, numbering the tokens and collecting literal texts.
struct Builder {
    reprs: Vec<String>,
    next: usize,
}

impl Builder {
    fn new() -> Self {
        Builder { reprs: Vec::new(), next: 0 }
    }
    fn id(&mut self) -> usize {
        self.next += 1;
        self.next
    }
    fn lit(&mut self, repr: &str) -> TokenTree {
        let id = self.id();
        self.reprs.push(repr.to_string());
        TokenTree::Literal { id, index: self.reprs.len() - 1 }
    }
    fn s(&mut self, text: &str) -> TokenTree {
        self.lit(&format!("{:?}", text))
    }
    fn comma(&mut self) -> TokenTree {
        let id = self.id();
        TokenTree::Punct { id, ch: ',' }
    }
    fn punct(&mut self, ch: char) -> TokenTree {
        let id = self.id();
        TokenTree::Punct { id, ch }
    }
    fn ident(&mut self) -> TokenTree {
        let id = self.id();
        TokenTree::Ident { id }
    }
    fn group(&mut self, delim: Delim, stream: Vec<TokenTree>) -> TokenTree {
        let id = self.id();
        TokenTree::Group { id, delim, stream }
    }
    fn brace(&mut self, stream: Vec<TokenTree>) -> TokenTree {
        self.group(Delim::Brace, stream)
    }
    fn paren(&mut self, stream: Vec<TokenTree>) -> TokenTree {
        self.group(Delim::Paren, stream)
    }
    fn lits(&self) -> Vec<Option<String>> {
        decode_literals(&self.reprs)
    }
}

fn id_of(t: &TokenTree) -> usize {
    t.id()
}

fn value(b: &mut Builder, v: &str) -> TokenTree {
    let x = b.s(v);
    b.brace(vec![x])
}

fn labelled(b: &mut Builder, v: &str, l: &str) -> TokenTree {
    let x = b.s(v);
    let c = b.comma();
    let y = b.s(l);
    b.brace(vec![x, c, y])
}

/// The first option of the documented example, with the default `"true"`.
fn example_option_1(b: &mut Builder, with_default: bool) -> TokenTree {
    let mut v = Vec::new();
    v.push(b.s("foo_option_1"));
    v.push(b.comma());
    v.push(b.s("Speed hack coprocessor X"));
    v.push(b.comma());
    v.push(b.s("Provides increased performance at the expense of reduced accuracy"));
    v.push(b.comma());
    let v1 = value(b, "false");
    let c1 = b.comma();
    let v2 = value(b, "true");
    let c2 = b.comma();
    let v3 = labelled(b, "unstable", "Turbo (Unstable)");
    let c3 = b.comma();
    v.push(b.brace(vec![v1, c1, v2, c2, v3, c3]));
    if with_default {
        v.push(b.comma());
        v.push(b.s("true"));
    }
    b.brace(v)
}

fn example_option_2(b: &mut Builder) -> TokenTree {
    let mut v = Vec::new();
    v.push(b.s("foo_option_2"));
    v.push(b.comma());
    v.push(b.s("Speed hack main processor Y"));
    v.push(b.comma());
    v.push(b.s("Provides increased performance at the expense of reduced accuracy"));
    v.push(b.comma());
    let v1 = value(b, "false");
    let c1 = b.comma();
    let v2 = value(b, "true");
    let c2 = b.comma();
    let v3 = labelled(b, "unstable", "Turbo (Unstable)");
    let c3 = b.comma();
    v.push(b.brace(vec![v1, c1, v2, c2, v3, c3]));
    v.push(b.comma());
    b.brace(v)
}

#[test]
fn documented_example_reads_both_options() {
    let mut b = Builder::new();
    let o1 = example_option_1(&mut b, true);
    let c = b.comma();
    let o2 = example_option_2(&mut b);
    let p = b.paren(vec![o1, c, o2]);
    let tokens = vec![p];
    let lits = b.lits();
    let options = CoreOptions::parse_attribute(&tokens, &lits).ok().unwrap();
    assert_eq!(options.0.len(), 2);
    let first = &options.0[0];
    assert_eq!(first.key.value, "foo_option_1");
    assert_eq!(first.desc.value, "Speed hack coprocessor X");
    assert_eq!(first.info.value, "Provides increased performance at the expense of reduced accuracy");
    assert!(first.desc_categorized.is_none());
    assert!(first.info_categorized.is_none());
    assert!(first.category_key.is_none());
    assert_eq!(first.values.len(), 3);
    assert_eq!(first.values[0].value.value, "false");
    assert!(first.values[0].label.is_none());
    assert_eq!(first.values[1].value.value, "true");
    assert_eq!(first.values[2].value.value, "unstable");
    assert_eq!(first.values[2].label.as_ref().unwrap().value, "Turbo (Unstable)");
    assert_eq!(first.default_value.as_ref().unwrap().value, "true");
    let second = &options.0[1];
    assert_eq!(second.key.value, "foo_option_2");
    assert!(second.default_value.is_none());
    assert_eq!(second.values.len(), 3);
}

#[test]
fn second_version_option_keeps_its_category_fields() {
    let mut b = Builder::new();
    let mut v = Vec::new();
    for (i, text) in ["key", "desc", "desc_cat", "info", "info_cat", "category"].iter().enumerate() {
        let _ = i;
        v.push(b.s(text));
        v.push(b.comma());
    }
    let x = value(&mut b, "a");
    let c = b.comma();
    let y = value(&mut b, "b");
    v.push(b.brace(vec![x, c, y]));
    v.push(b.comma());
    v.push(b.s("b"));
    v.push(b.comma());
    let o = b.brace(v);
    let p = b.paren(vec![o]);
    let lits = b.lits();
    let options = CoreOptions::parse_attribute(&vec![p], &lits).ok().unwrap();
    let o = &options.0[0];
    assert_eq!(o.key.value, "key");
    assert_eq!(o.desc_categorized.as_ref().unwrap().value, "desc_cat");
    assert_eq!(o.info.value, "info");
    assert_eq!(o.info_categorized.as_ref().unwrap().value, "info_cat");
    assert_eq!(o.category_key.as_ref().unwrap().value, "category");
    assert_eq!(o.values.len(), 2);
    assert_eq!(o.default_value.as_ref().unwrap().value, "b");
}

#[test]
fn empty_attribute_declares_nothing() {
    let mut b = Builder::new();
    let p = b.paren(vec![]);
    let lits = b.lits();
    let options = CoreOptions::parse_attribute(&vec![p], &lits).ok().unwrap();
    assert_eq!(options.0.len(), 0);
}

#[test]
fn missing_parentheses_is_reported_at_the_end() {
    let b = Builder::new();
    let lits = b.lits();
    let err = CoreOptions::parse_attribute(&vec![], &lits).err().unwrap();
    assert_eq!(err, ParseError { kind: ErrorKind::ExpectedParens, place: Place::EndOfInput });
}

#[test]
fn brackets_are_not_parentheses() {
    let mut b = Builder::new();
    let g = b.group(Delim::Bracket, vec![]);
    let id = id_of(&g);
    let lits = b.lits();
    let err = CoreOptions::parse_attribute(&vec![g], &lits).err().unwrap();
    assert_eq!(err, ParseError { kind: ErrorKind::ExpectedParens, place: Place::Token(id) });
}

#[test]
fn tokens_after_the_parentheses_are_unexpected() {
    let mut b = Builder::new();
    let p = b.paren(vec![]);
    let extra = b.ident();
    let id = id_of(&extra);
    let lits = b.lits();
    let err = CoreOptions::parse_attribute(&vec![p, extra], &lits).err().unwrap();
    assert_eq!(err, ParseError { kind: ErrorKind::UnexpectedToken, place: Place::Token(id) });
}

#[test]
fn option_outside_braces_is_an_error() {
    let mut b = Builder::new();
    let x = b.s("key");
    let id = id_of(&x);
    let p = b.paren(vec![x]);
    let lits = b.lits();
    let err = CoreOptions::parse_attribute(&vec![p], &lits).err().unwrap();
    assert_eq!(err, ParseError { kind: ErrorKind::ExpectedBraces, place: Place::Token(id) });
}

#[test]
fn missing_comma_between_options() {
    let mut b = Builder::new();
    let o1 = example_option_1(&mut b, false);
    let o2 = example_option_2(&mut b);
    let id = id_of(&o2);
    let p = b.paren(vec![o1, o2]);
    let lits = b.lits();
    let err = CoreOptions::parse_attribute(&vec![p], &lits).err().unwrap();
    assert_eq!(err, ParseError { kind: ErrorKind::ExpectedComma, place: Place::Token(id) });
}

#[test]
fn number_where_a_string_is_expected() {
    let mut b = Builder::new();
    let k = b.s("key");
    let c = b.comma();
    let n = b.lit("1");
    let id = id_of(&n);
    let o = b.brace(vec![k, c, n]);
    let p = b.paren(vec![o]);
    let lits = b.lits();
    let err = CoreOptions::parse_attribute(&vec![p], &lits).err().unwrap();
    assert_eq!(err, ParseError { kind: ErrorKind::ExpectedStrLit, place: Place::Token(id) });
}

#[test]
fn truncated_option_reports_the_end_of_its_group() {
    let mut b = Builder::new();
    let k = b.s("key");
    let c = b.comma();
    let o = b.brace(vec![k, c]);
    let gid = id_of(&o);
    let p = b.paren(vec![o]);
    let lits = b.lits();
    let err = CoreOptions::parse_attribute(&vec![p], &lits).err().unwrap();
    assert_eq!(err, ParseError { kind: ErrorKind::ExpectedStrLit, place: Place::EndOfGroup(gid) });
}

#[test]
fn trailing_comma_after_a_default_is_left_unread() {
    // The first version's form takes no comma after the default value.
    let mut b = Builder::new();
    let mut v = Vec::new();
    for text in ["key", "desc", "info"] {
        v.push(b.s(text));
        v.push(b.comma());
    }
    let x = value(&mut b, "a");
    v.push(b.brace(vec![x]));
    v.push(b.comma());
    v.push(b.s("a"));
    let trailing = b.comma();
    let id = id_of(&trailing);
    v.push(trailing);
    let o = b.brace(v);
    let p = b.paren(vec![o]);
    let lits = b.lits();
    let err = CoreOptions::parse_attribute(&vec![p], &lits).err().unwrap();
    assert_eq!(err, ParseError { kind: ErrorKind::UnexpectedToken, place: Place::Token(id) });
}

#[test]
fn third_item_in_a_value_is_unexpected() {
    let mut b = Builder::new();
    let mut v = Vec::new();
    for text in ["key", "desc", "info"] {
        v.push(b.s(text));
        v.push(b.comma());
    }
    let a = b.s("a");
    let c1 = b.comma();
    let l = b.s("label");
    let c2 = b.comma();
    let extra = b.s("extra");
    let id = id_of(&extra);
    let val = b.brace(vec![a, c1, l, c2, extra]);
    v.push(b.brace(vec![val]));
    let o = b.brace(v);
    let p = b.paren(vec![o]);
    let lits = b.lits();
    let err = CoreOptions::parse_attribute(&vec![p], &lits).err().unwrap();
    assert_eq!(err, ParseError { kind: ErrorKind::UnexpectedToken, place: Place::Token(id) });
}

#[test]
fn first_version_option_converts_to_the_second() {
    let mut b = Builder::new();
    let mut v = Vec::new();
    for text in ["k", "d", "i"] {
        v.push(b.s(text));
        v.push(b.comma());
    }
    let x = value(&mut b, "on");
    v.push(b.brace(vec![x]));
    let lits = b.lits();
    let (o, unread) = CoreOption::parse(&v, &lits, Place::EndOfInput).ok().unwrap();
    assert!(unread.is_none());
    let o2 = CoreOptionV2::from(o);
    assert_eq!(o2.key.value, "k");
    assert_eq!(o2.desc.value, "d");
    assert_eq!(o2.info.value, "i");
    assert!(o2.desc_categorized.is_none());
    assert!(o2.category_key.is_none());
    assert_eq!(o2.values.len(), 1);
    assert_eq!(o2.values[0].value.value, "on");
}

#[test]
fn options_of_several_attributes_concatenate_in_order() {
    let mut b = Builder::new();
    let o1 = example_option_1(&mut b, true);
    let p1 = b.paren(vec![o1]);
    let o2 = example_option_2(&mut b);
    let p2 = b.paren(vec![o2]);
    let lits = b.lits();
    let a = CoreOptions::parse_attribute(&vec![p1], &lits).ok().unwrap();
    let c = CoreOptions::parse_attribute(&vec![p2], &lits).ok().unwrap();
    let all = vec![a, CoreOptions(Vec::new()), c].concat();
    assert_eq!(all.0.len(), 2);
    assert_eq!(all.0[0].key.value, "foo_option_1");
    assert_eq!(all.0[1].key.value, "foo_option_2");
}

#[test]
fn categories_read_with_and_without_trailing_comma() {
    let mut b = Builder::new();
    let mut c1 = Vec::new();
    for text in ["video", "Video", "Video settings"] {
        c1.push(b.s(text));
        c1.push(b.comma());
    }
    c1.pop();
    let g1 = b.brace(c1);
    let sep = b.comma();
    let mut c2 = Vec::new();
    for text in ["audio", "Audio", "Audio settings"] {
        c2.push(b.s(text));
        c2.push(b.comma());
    }
    let g2 = b.brace(c2);
    let p = b.paren(vec![g1, sep, g2]);
    let lits = b.lits();
    let cats = CoreOptionCategories::parse_attribute(&vec![p], &lits).ok().unwrap();
    assert_eq!(cats.0.len(), 2);
    assert_eq!(cats.0[0].key.value, "video");
    assert_eq!(cats.0[0].desc.value, "Video");
    assert_eq!(cats.0[0].info.value, "Video settings");
    assert_eq!(cats.0[1].key.value, "audio");
}

#[test]
fn category_with_a_fourth_field_is_unexpected() {
    let mut b = Builder::new();
    let mut c1 = Vec::new();
    for text in ["video", "Video", "Video settings", "extra"] {
        c1.push(b.s(text));
        c1.push(b.comma());
    }
    c1.pop();
    let extra_id = id_of(&c1[6]);
    let g1 = b.brace(c1);
    let p = b.paren(vec![g1]);
    let lits = b.lits();
    let err = CoreOptionCategories::parse_attribute(&vec![p], &lits).err().unwrap();
    assert_eq!(err, ParseError { kind: ErrorKind::UnexpectedToken, place: Place::Token(extra_id) });
}

#[test]
fn punctuation_other_than_a_comma() {
    let mut b = Builder::new();
    let k = b.s("key");
    let semi = b.punct(';');
    let id = id_of(&semi);
    let g = b.brace(vec![k, semi]);
    let p = b.paren(vec![g]);
    let lits = b.lits();
    let err = CoreOptionCategories::parse_attribute(&vec![p], &lits).err().unwrap();
    assert_eq!(err, ParseError { kind: ErrorKind::ExpectedComma, place: Place::Token(id) });
}

#[test]
fn second_version_takes_a_trailing_comma_where_no_default_is_written() {
    let mut b = Builder::new();
    let mut v = Vec::new();
    for text in ["key", "desc", "desc_cat", "info", "info_cat", "category"] {
        v.push(b.s(text));
        v.push(b.comma());
    }
    let x = value(&mut b, "a");
    v.push(b.brace(vec![x]));
    v.push(b.comma());
    v.push(b.comma());
    let o = b.brace(v);
    let p = b.paren(vec![o]);
    let lits = b.lits();
    let options = CoreOptions::parse_attribute(&vec![p], &lits).ok().unwrap();
    assert!(options.0[0].default_value.is_none());
    assert_eq!(options.0[0].category_key.as_ref().unwrap().value, "category");
}

#[test]
fn options_with_a_trailing_comma_read_the_same() {
    let mut b = Builder::new();
    let o1 = example_option_1(&mut b, true);
    let c = b.comma();
    let p1 = b.paren(vec![o1, c]);
    let o2 = example_option_1(&mut b, true);
    let p2 = b.paren(vec![o2]);
    let lits = b.lits();
    let with = CoreOptions::parse_attribute(&vec![p1], &lits).ok().unwrap();
    let without = CoreOptions::parse_attribute(&vec![p2], &lits).ok().unwrap();
    assert_eq!(with.0.len(), 1);
    assert_eq!(without.0.len(), 1);
    assert_eq!(with.0[0].key.value, without.0[0].key.value);
    assert_eq!(with.0[0].values.len(), without.0[0].values.len());
}

#[test]
fn parse_leaves_the_tokens_after_the_parentheses() {
    let mut b = Builder::new();
    let p = b.paren(vec![]);
    let extra = b.ident();
    let lits = b.lits();
    let (options, unread, next) = CoreOptions::parse(&vec![p, extra], &lits).ok().unwrap();
    assert_eq!(options.0.len(), 0);
    assert!(unread.is_none());
    assert_eq!(next, 1);
}

#[test]
fn parse_records_a_token_left_in_a_group() {
    let mut b = Builder::new();
    let mut c1 = Vec::new();
    for text in ["video", "Video", "Video settings", "extra"] {
        c1.push(b.s(text));
        c1.push(b.comma());
    }
    c1.pop();
    let extra_id = id_of(&c1[6]);
    let g1 = b.brace(c1);
    let p = b.paren(vec![g1]);
    let after = b.ident();
    let lits = b.lits();
    let (cats, unread, next) = CoreOptionCategories::parse(&vec![p, after], &lits).ok().unwrap();
    assert_eq!(cats.0.len(), 1);
    assert_eq!(cats.0[0].info.value, "Video settings");
    assert_eq!(unread, Some(Place::Token(extra_id)));
    assert_eq!(next, 1);
}

#[test]
fn categories_parse_leaves_the_tokens_after_the_parentheses() {
    let mut b = Builder::new();
    let p = b.paren(vec![]);
    let extra = b.ident();
    let p2 = b.paren(vec![]);
    let extra2 = b.ident();
    let id = id_of(&extra2);
    let lits = b.lits();
    let (cats, unread, next) = CoreOptionCategories::parse(&vec![p, extra], &lits).ok().unwrap();
    assert_eq!(cats.0.len(), 0);
    assert!(unread.is_none());
    assert_eq!(next, 1);
    let err = CoreOptionCategories::parse_attribute(&vec![p2, extra2], &lits).err().unwrap();
    assert_eq!(err, ParseError { kind: ErrorKind::UnexpectedToken, place: Place::Token(id) });
}

/// The thirteen tokens of an option of the second form up to its values group.
fn v2_prefix(b: &mut Builder) -> Vec<TokenTree> {
    let mut v = Vec::new();
    for text in ["key", "desc", "desc_cat", "info", "info_cat", "category"] {
        v.push(b.s(text));
        v.push(b.comma());
    }
    let x = value(b, "a");
    let c = b.comma();
    let y = value(b, "b");
    v.push(b.brace(vec![x, c, y]));
    v
}

#[test]
fn second_version_closings_agree_but_for_the_default() {
    let mut b = Builder::new();
    let f1 = v2_prefix(&mut b);
    let mut f2 = v2_prefix(&mut b);
    f2.push(b.comma());
    let mut f3 = v2_prefix(&mut b);
    f3.push(b.comma());
    f3.push(b.s("b"));
    let mut f4 = v2_prefix(&mut b);
    f4.push(b.comma());
    f4.push(b.s("b"));
    f4.push(b.comma());
    let lits = b.lits();
    let mut read = Vec::new();
    for f in [f1, f2, f3, f4] {
        let (o, unread) = CoreOptionV2::parse(&f, &lits, Place::EndOfInput).ok().unwrap();
        assert!(unread.is_none());
        read.push(o);
    }
    for o in read.iter() {
        assert_eq!(o.key.value, "key");
        assert_eq!(o.desc_categorized.as_ref().unwrap().value, "desc_cat");
        assert_eq!(o.category_key.as_ref().unwrap().value, "category");
        assert_eq!(o.values.len(), 2);
        assert_eq!(o.values[1].value.value, "b");
    }
    assert!(read[0].default_value.is_none());
    assert!(read[1].default_value.is_none());
    assert_eq!(read[2].default_value.as_ref().unwrap().value, "b");
    assert_eq!(read[3].default_value.as_ref().unwrap().value, "b");
}

#[test]
fn joining_nothing_or_one_result() {
    let mut b = Builder::new();
    let o1 = example_option_1(&mut b, true);
    let p1 = b.paren(vec![o1]);
    let lits = b.lits();
    let none: Vec<CoreOptions> = Vec::new();
    assert_eq!(none.concat().0.len(), 0);
    let one = CoreOptions::parse_attribute(&vec![p1], &lits).ok().unwrap();
    let joined = vec![one].concat();
    assert_eq!(joined.0.len(), 1);
    assert_eq!(joined.0[0].key.value, "foo_option_1");
    let cats: Vec<CoreOptionCategories> = Vec::new();
    assert_eq!(cats.concat().0.len(), 0);
}

#[test]
fn categories_with_a_trailing_comma_read_the_same() {
    let mut b = Builder::new();
    let mut make = |b: &mut Builder, trailing: bool| {
        let mut c1 = Vec::new();
        for text in ["video", "Video", "Video settings"] {
            c1.push(b.s(text));
            c1.push(b.comma());
        }
        let g1 = b.brace(c1);
        let mut items = vec![g1];
        if trailing {
            items.push(b.comma());
        }
        b.paren(items)
    };
    let p1 = make(&mut b, true);
    let p2 = make(&mut b, false);
    let lits = b.lits();
    let with = CoreOptionCategories::parse_attribute(&vec![p1], &lits).ok().unwrap();
    let without = CoreOptionCategories::parse_attribute(&vec![p2], &lits).ok().unwrap();
    assert_eq!(with.0.len(), 1);
    assert_eq!(without.0.len(), 1);
    assert_eq!(with.0[0].key.value, without.0[0].key.value);
    assert_eq!(with.0[0].info.value, without.0[0].info.value);
}
