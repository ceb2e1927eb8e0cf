use rust_libretro_proc::derive::{derive_core_options, path_is_ident, AttrPath, Attribute, PathSegment};
use rust_libretro_proc::error::{ErrorKind, Place};
use rust_libretro_proc::tables::RETRO_NUM_CORE_OPTION_VALUES_MAX;
use rust_libretro_proc::tokens::{Delim, TokenTree};

struct Builder {
    reprs: Vec<String>,
    next: usize,
}

impl Builder {
    fn new() -> Self {
        Builder { reprs: Vec::new(), next: 0 }
    }
    fn id(&mut self) -> usize {
        self.next += 1;
        self.next
    }
    fn s(&mut self, text: &str) -> TokenTree {
        let id = self.id();
        self.reprs.push(format!("{:?}", text));
        TokenTree::Literal { id, index: self.reprs.len() - 1 }
    }
    fn comma(&mut self) -> TokenTree {
        let id = self.id();
        TokenTree::Punct { id, ch: ',' }
    }
    fn brace(&mut self, stream: Vec<TokenTree>) -> TokenTree {
        let id = self.id();
        TokenTree::Group { id, delim: Delim::Brace, stream }
    }
    fn paren(&mut self, stream: Vec<TokenTree>) -> TokenTree {
        let id = self.id();
        TokenTree::Group { id, delim: Delim::Paren, stream }
    }
    /// `{ "k", "d", "i", { {"v1"}, {"v2", "l2"} } [, "default"] }`
    fn option(&mut self, k: &str, d: &str, values: &[(&str, Option<&str>)], default: Option<&str>) -> TokenTree {
        let mut v = Vec::new();
        for text in [k, d, "info"] {
            v.push(self.s(text));
            v.push(self.comma());
        }
        let mut vals = Vec::new();
        for (val, label) in values {
            let mut g = vec![self.s(val)];
            if let Some(l) = label {
                g.push(self.comma());
                g.push(self.s(l));
            }
            vals.push(self.brace(g));
            vals.push(self.comma());
        }
        v.push(self.brace(vals));
        if let Some(d) = default {
            v.push(self.comma());
            v.push(self.s(d));
        }
        self.brace(v)
    }
}

fn path(name: &str) -> AttrPath {
    AttrPath { leading_colon: false, segments: vec![PathSegment { ident: name.to_string(), has_arguments: false }] }
}

fn attr(name: &str, tokens: Vec<TokenTree>) -> Attribute {
    Attribute { path: path(name), tokens }
}

fn cstr(s: &str) -> Vec<u8> {
    let mut b = s.as_bytes().to_vec();
    b.push(0);
    b
}

#[test]
fn tables_for_two_options_and_a_category() {
    let mut b = Builder::new();
    let o1 = b.option("opt_a", "Option A", &[("false", None), ("true", Some("On"))], Some("true"));
    let c = b.comma();
    let o2 = b.option("opt_b", "Option B", &[("x", None)], None);
    let p = b.paren(vec![o1, c, o2]);
    let mut cat = Vec::new();
    for t in ["video", "Video", "Video settings"] {
        cat.push(b.s(t));
        cat.push(b.comma());
    }
    cat.pop();
    let g = b.brace(cat);
    let cp = b.paren(vec![g]);
    let attrs = vec![attr("doc", vec![]), attr("options", vec![p]), attr("categories", vec![cp])];
    let tables = derive_core_options(&attrs, &b.reprs).ok().unwrap();

    assert_eq!(tables.options.len(), 3);
    assert_eq!(tables.variables.len(), 3);
    assert_eq!(tables.categories.len(), 2);
    assert!(tables.options[2].is_none() && tables.variables[2].is_none() && tables.categories[1].is_none());

    let a = tables.options[0].as_ref().unwrap();
    assert_eq!(a.key.bytes, cstr("opt_a"));
    assert_eq!(a.desc.bytes, cstr("Option A"));
    assert_eq!(a.info.bytes, cstr("info"));
    assert_eq!(a.desc_categorized.bytes, vec![0u8]);
    assert_eq!(a.desc_categorized.span, None);
    assert_eq!(a.category_key.bytes, vec![0u8]);
    assert_eq!(a.values.len(), RETRO_NUM_CORE_OPTION_VALUES_MAX);
    assert_eq!(a.values[0].value.as_ref().unwrap().bytes, cstr("false"));
    assert!(a.values[0].label.is_none());
    assert_eq!(a.values[1].value.as_ref().unwrap().bytes, cstr("true"));
    assert_eq!(a.values[1].label.as_ref().unwrap().bytes, cstr("On"));
    for e in &a.values[2..] {
        assert!(e.value.is_none() && e.label.is_none());
    }
    assert_eq!(a.default_value.as_ref().unwrap().bytes, cstr("true"));
    assert!(tables.options[1].as_ref().unwrap().default_value.is_none());

    assert_eq!(tables.variables[0].as_ref().unwrap().key.bytes, cstr("opt_a"));
    assert_eq!(tables.variables[0].as_ref().unwrap().value.bytes, b"Option A; false|true".to_vec());
    assert_eq!(tables.variables[1].as_ref().unwrap().value.bytes, b"Option B; x".to_vec());

    assert_eq!(tables.categories[0].as_ref().unwrap().key.bytes, cstr("video"));
    assert_eq!(tables.categories[0].as_ref().unwrap().info.bytes, cstr("Video settings"));
}

#[test]
fn non_ascii_text_is_encoded_as_utf8() {
    let mut b = Builder::new();
    let o = b.option("k", "Größe", &[("ä", None), ("ö", None)], None);
    let p = b.paren(vec![o]);
    let attrs = vec![attr("options", vec![p])];
    let tables = derive_core_options(&attrs, &b.reprs).ok().unwrap();
    assert_eq!(tables.options[0].as_ref().unwrap().desc.bytes, cstr("Größe"));
    assert_eq!(tables.variables[0].as_ref().unwrap().value.bytes, "Größe; ä|ö".as_bytes().to_vec());
}

#[test]
fn values_beyond_the_array_are_dropped() {
    let mut b = Builder::new();
    let names: Vec<String> = (0..130).map(|i| format!("v{}", i)).collect();
    let values: Vec<(&str, Option<&str>)> = names.iter().map(|n| (n.as_str(), None)).collect();
    let o = b.option("k", "d", &values, None);
    let p = b.paren(vec![o]);
    let attrs = vec![attr("options", vec![p])];
    let tables = derive_core_options(&attrs, &b.reprs).ok().unwrap();
    let entries = &tables.options[0].as_ref().unwrap().values;
    assert_eq!(entries.len(), 128);
    assert_eq!(entries[126].value.as_ref().unwrap().bytes, cstr("v126"));
    assert!(entries[127].value.is_none());
    // The variable still lists all values.
    assert!(tables.variables[0].as_ref().unwrap().value.bytes.ends_with(b"|v128|v129"));
}

#[test]
fn options_of_several_attributes_follow_each_other() {
    let mut b = Builder::new();
    let o1 = b.option("first", "d", &[("a", None)], None);
    let p1 = b.paren(vec![o1]);
    let o2 = b.option("second", "d", &[("a", None)], None);
    let p2 = b.paren(vec![o2]);
    let attrs = vec![attr("options", vec![p1]), attr("categories", vec![]), attr("options", vec![p2])];
    // The empty categories attribute is an error, reported after the options read.
    let err = derive_core_options(&attrs, &b.reprs).err().unwrap();
    assert_eq!(err.kind, ErrorKind::ExpectedParens);
    assert_eq!(err.place, Place::EndOfInput);
    let attrs = vec![attr("options", vec![p_clone(&attrs[0])]), attr("options", vec![p_clone(&attrs[2])])];
    let tables = derive_core_options(&attrs, &b.reprs).ok().unwrap();
    assert_eq!(tables.options[0].as_ref().unwrap().key.bytes, cstr("first"));
    assert_eq!(tables.options[1].as_ref().unwrap().key.bytes, cstr("second"));
}

fn clone_tree(t: &TokenTree) -> TokenTree {
    match t {
        TokenTree::Group { id, delim, stream } => TokenTree::Group { id: *id, delim: *delim, stream: stream.iter().map(clone_tree).collect() },
        TokenTree::Ident { id } => TokenTree::Ident { id: *id },
        TokenTree::Punct { id, ch } => TokenTree::Punct { id: *id, ch: *ch },
        TokenTree::Literal { id, index } => TokenTree::Literal { id: *id, index: *index },
    }
}

fn p_clone(a: &Attribute) -> TokenTree {
    clone_tree(&a.tokens[0])
}

#[test]
fn options_error_comes_before_categories_error() {
    let attrs = vec![attr("categories", vec![]), attr("options", vec![])];
    let err = derive_core_options(&attrs, &vec![]).err().unwrap();
    assert_eq!(err.kind, ErrorKind::ExpectedParens);
}

#[test]
fn no_attributes_give_empty_tables() {
    let tables = derive_core_options(&vec![], &vec![]).ok().unwrap();
    assert_eq!(tables.options.len(), 1);
    assert_eq!(tables.variables.len(), 1);
    assert_eq!(tables.categories.len(), 1);
    assert!(tables.options[0].is_none() && tables.variables[0].is_none() && tables.categories[0].is_none());
}

#[test]
fn only_plain_identifier_paths_are_selected() {
    assert!(path_is_ident(&path("options"), "options"));
    assert!(!path_is_ident(&path("r#options"), "options"));
    let mut p = path("options");
    p.leading_colon = true;
    assert!(!path_is_ident(&p, "options"));
    let mut p = path("options");
    p.segments[0].has_arguments = true;
    assert!(!path_is_ident(&p, "options"));
    let p = AttrPath {
        leading_colon: false,
        segments: vec![
            PathSegment { ident: "a".to_string(), has_arguments: false },
            PathSegment { ident: "options".to_string(), has_arguments: false },
        ],
    };
    assert!(!path_is_ident(&p, "options"));
    // An `options` attribute with a qualified path is not read at all.
    let attrs = vec![Attribute { path: p, tokens: vec![] }];
    assert!(derive_core_options(&attrs, &vec![]).is_ok());
}

#[test]
fn other_attributes_change_nothing() {
    let mut b = Builder::new();
    let o = b.option("k", "d", &[("a", None)], None);
    let p = b.paren(vec![o]);
    let with = vec![attr("doc", vec![]), attr("options", vec![p]), attr("derive", vec![])];
    let p2 = p_clone(&with[1]);
    let without = vec![attr("options", vec![p2])];
    let t1 = derive_core_options(&with, &b.reprs).ok().unwrap();
    let t2 = derive_core_options(&without, &b.reprs).ok().unwrap();
    assert_eq!(t1.options.len(), t2.options.len());
    assert_eq!(t1.variables[0].as_ref().unwrap().value.bytes, t2.variables[0].as_ref().unwrap().value.bytes);
    assert_eq!(t1.categories.len(), 1);
}
