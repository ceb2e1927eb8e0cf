//! The tables that the derive macro emits: the option definitions of both
//! interface versions, the variables of the oldest interface, and the
//! categories.
use vstd::prelude::*;
use vstd::string::StringExecFns;
use vstd::utf8::encode_utf8;
use crate::categories::{CoreOptionCategories, CoreOptionCategory};
use crate::options::{CoreOptionV2, CoreOptionV2Model, CoreOptionValue, CoreOptions};
use crate::tokens::StrLit;

verus! {

/// The number of entries in the values array of a core option definition, as
/// `libretro.h` defines it (the last entry always ends the list).
pub const RETRO_NUM_CORE_OPTION_VALUES_MAX: usize = 128;

/// A byte string literal of the emitted code, and the token whose span it takes
/// (`None`: the macro's call site).
pub struct ByteLit {
    pub bytes: Vec<u8>,
    pub span: Option<usize>,
}

pub struct ByteLitModel {
    pub bytes: Seq<u8>,
    pub span: Option<usize>,
}

impl View for ByteLit {
    type V = ByteLitModel;

    open spec fn view(&self) -> ByteLitModel {
        ByteLitModel { bytes: self.bytes@, span: self.span }
    }
}

pub open spec fn opt_view(b: Option<ByteLit>) -> Option<ByteLitModel> {
    match b {
        Some(b) => Some(b@),
        None => None,
    }
}

/// An entry of an option's values array; `None` stands for a null pointer.
pub struct ValueEntry {
    pub value: Option<ByteLit>,
    pub label: Option<ByteLit>,
}

pub struct ValueEntryModel {
    pub value: Option<ByteLitModel>,
    pub label: Option<ByteLitModel>,
}

impl View for ValueEntry {
    type V = ValueEntryModel;

    open spec fn view(&self) -> ValueEntryModel {
        ValueEntryModel { value: opt_view(self.value), label: opt_view(self.label) }
    }
}

/// The definition of one option. The first interface version takes `key`,
/// `desc`, `info`, `values` and `default_value`; the second one all fields.
pub struct OptionEntry {
    pub key: ByteLit,
    pub desc: ByteLit,
    pub info: ByteLit,
    pub desc_categorized: ByteLit,
    pub info_categorized: ByteLit,
    pub category_key: ByteLit,
    pub values: Vec<ValueEntry>,
    pub default_value: Option<ByteLit>,
}

pub struct OptionEntryModel {
    pub key: ByteLitModel,
    pub desc: ByteLitModel,
    pub info: ByteLitModel,
    pub desc_categorized: ByteLitModel,
    pub info_categorized: ByteLitModel,
    pub category_key: ByteLitModel,
    pub values: Seq<ValueEntryModel>,
    pub default_value: Option<ByteLitModel>,
}

impl View for OptionEntry {
    type V = OptionEntryModel;

    open spec fn view(&self) -> OptionEntryModel {
        OptionEntryModel {
            key: self.key@,
            desc: self.desc@,
            info: self.info@,
            desc_categorized: self.desc_categorized@,
            info_categorized: self.info_categorized@,
            category_key: self.category_key@,
            values: self.values@.map_values(|v: ValueEntry| v@),
            default_value: opt_view(self.default_value),
        }
    }
}

/// A variable of the oldest interface: a key and `"desc; value1|value2|..."`.
pub struct VariableEntry {
    pub key: ByteLit,
    pub value: ByteLit,
}

pub struct VariableEntryModel {
    pub key: ByteLitModel,
    pub value: ByteLitModel,
}

impl View for VariableEntry {
    type V = VariableEntryModel;

    open spec fn view(&self) -> VariableEntryModel {
        VariableEntryModel { key: self.key@, value: self.value@ }
    }
}

/// The definition of one category.
pub struct CategoryEntry {
    pub key: ByteLit,
    pub desc: ByteLit,
    pub info: ByteLit,
}

pub struct CategoryEntryModel {
    pub key: ByteLitModel,
    pub desc: ByteLitModel,
    pub info: ByteLitModel,
}

impl View for CategoryEntry {
    type V = CategoryEntryModel;

    open spec fn view(&self) -> CategoryEntryModel {
        CategoryEntryModel { key: self.key@, desc: self.desc@, info: self.info@ }
    }
}

/// Everything the derive macro emits for a struct: the option definitions (of
/// both interface versions), the variables and the categories. Each table has
/// one entry per option (or category), in order, and ends with its terminating
/// entry, `None`, whose pointers are all null (its values array too).
pub struct CoreOptionTables {
    pub options: Vec<Option<OptionEntry>>,
    pub variables: Vec<Option<VariableEntry>>,
    pub categories: Vec<Option<CategoryEntry>>,
}

pub struct CoreOptionTablesModel {
    pub options: Seq<Option<OptionEntryModel>>,
    pub variables: Seq<Option<VariableEntryModel>>,
    pub categories: Seq<Option<CategoryEntryModel>>,
}

impl View for CoreOptionTables {
    type V = CoreOptionTablesModel;

    open spec fn view(&self) -> CoreOptionTablesModel {
        CoreOptionTablesModel {
            options: self.options@.map_values(|o: Option<OptionEntry>| match o {
                Some(e) => Some(e@),
                None => None,
            }),
            variables: self.variables@.map_values(|v: Option<VariableEntry>| match v {
                Some(e) => Some(e@),
                None => None,
            }),
            categories: self.categories@.map_values(|c: Option<CategoryEntry>| match c {
                Some(e) => Some(e@),
                None => None,
            }),
        }
    }
}

/// A table of `entries`, in order, followed by its terminating entry.
pub open spec fn terminated<T>(entries: Seq<T>) -> Seq<Option<T>> {
    entries.map_values(|e: T| Some(e)).push(None)
}

// ---------------------------------------------------------------------------
// What the tables hold
// ---------------------------------------------------------------------------

/// The C string of a literal: its UTF-8 bytes and a terminating NUL byte,
/// with the literal's span.
pub open spec fn c_string(l: StrLit) -> ByteLitModel {
    ByteLitModel { bytes: encode_utf8(l.value@).push(0u8), span: Some(l.id) }
}

/// The C string of an optional literal; the empty C string at the call site
/// where there is none.
pub open spec fn c_string_or_empty(l: Option<StrLit>) -> ByteLitModel {
    match l {
        Some(l) => c_string(l),
        None => ByteLitModel { bytes: seq![0u8], span: None },
    }
}

pub open spec fn opt_c_string(l: Option<StrLit>) -> Option<ByteLitModel> {
    match l {
        Some(l) => Some(c_string(l)),
        None => None,
    }
}

/// Entry `i` of the values array of an option with the given values: the
/// value's C string and its label's, for the first
/// `RETRO_NUM_CORE_OPTION_VALUES_MAX - 1` values; null pointers after them.
pub open spec fn value_entry(values: Seq<CoreOptionValue>, i: int) -> ValueEntryModel {
    if 0 <= i < RETRO_NUM_CORE_OPTION_VALUES_MAX - 1 && i < values.len() {
        ValueEntryModel { value: Some(c_string(values[i].value)), label: opt_c_string(values[i].label) }
    } else {
        ValueEntryModel { value: None, label: None }
    }
}

/// The values array of an option: `RETRO_NUM_CORE_OPTION_VALUES_MAX` entries.
pub open spec fn value_entries(values: Seq<CoreOptionValue>) -> Seq<ValueEntryModel> {
    Seq::new(RETRO_NUM_CORE_OPTION_VALUES_MAX as nat, |i: int| value_entry(values, i))
}

/// The definition of an option.
pub open spec fn option_entry(o: CoreOptionV2Model) -> OptionEntryModel {
    OptionEntryModel {
        key: c_string(o.key),
        desc: c_string(o.desc),
        info: c_string(o.info),
        desc_categorized: c_string_or_empty(o.desc_categorized),
        info_categorized: c_string_or_empty(o.info_categorized),
        category_key: c_string_or_empty(o.category_key),
        values: value_entries(o.values),
        default_value: opt_c_string(o.default_value),
    }
}

/// The values of an option joined by `|`.
pub open spec fn values_text(values: Seq<CoreOptionValue>) -> Seq<char>
    decreases values.len(),
{
    if values.len() == 0 {
        Seq::empty()
    } else if values.len() == 1 {
        values[0].value.value@
    } else {
        values_text(values.drop_last()) + seq!['|'] + values.last().value.value@
    }
}

/// The variable of an option: its key as a C string, and the UTF-8 bytes of
/// `"desc; value1|value2|..."`, with no terminating NUL byte, at the span of
/// the description.
pub open spec fn variable_entry(o: CoreOptionV2Model) -> VariableEntryModel {
    VariableEntryModel {
        key: c_string(o.key),
        value: ByteLitModel {
            bytes: encode_utf8(o.desc.value@ + seq![';', ' '] + values_text(o.values)),
            span: Some(o.desc.id),
        },
    }
}

/// The definition of a category.
pub open spec fn category_entry(c: CoreOptionCategory) -> CategoryEntryModel {
    CategoryEntryModel { key: c_string(c.key), desc: c_string(c.desc), info: c_string(c.info) }
}

/// The tables for the given options and categories.
pub open spec fn tables(options: Seq<CoreOptionV2Model>, categories: Seq<CoreOptionCategory>) -> CoreOptionTablesModel {
    CoreOptionTablesModel {
        options: terminated(options.map_values(|o: CoreOptionV2Model| option_entry(o))),
        variables: terminated(options.map_values(|o: CoreOptionV2Model| variable_entry(o))),
        categories: terminated(categories.map_values(|c: CoreOptionCategory| category_entry(c))),
    }
}

// ---------------------------------------------------------------------------
// Building the tables
// ---------------------------------------------------------------------------

fn utf8_bytes(s: &String) -> (res: Vec<u8>)
    ensures
        res@ == encode_utf8(s@),
{
    vstd::slice::slice_to_vec(s.as_str().as_bytes())
}

/// The C string of a literal.
pub fn lit_byte_str(lit: &StrLit) -> (res: ByteLit)
    ensures
        res@ == c_string(*lit),
{
    let mut bytes = utf8_bytes(&lit.value);
    bytes.push(0u8);
    ByteLit { bytes, span: Some(lit.id) }
}

fn opt_lit_byte_str(lit: &Option<StrLit>) -> (res: Option<ByteLit>)
    ensures
        opt_view(res) == opt_c_string(*lit),
{
    match lit {
        Some(l) => Some(lit_byte_str(l)),
        None => None,
    }
}

fn lit_byte_str_or_empty(lit: &Option<StrLit>) -> (res: ByteLit)
    ensures
        res@ == c_string_or_empty(*lit),
{
    match lit {
        Some(l) => lit_byte_str(l),
        None => {
            let mut bytes: Vec<u8> = Vec::new();
            bytes.push(0u8);
            ByteLit { bytes, span: None }
        },
    }
}

/// The values array of an option.
pub fn get_option_values(option: &CoreOptionV2) -> (res: Vec<ValueEntry>)
    ensures
        res@.map_values(|v: ValueEntry| v@) == value_entries(option.values@),
{
    let mut out: Vec<ValueEntry> = Vec::new();
    let mut index: usize = 0;
    while index < RETRO_NUM_CORE_OPTION_VALUES_MAX - 1
        invariant
            index <= RETRO_NUM_CORE_OPTION_VALUES_MAX - 1,
            out.len() == index,
            forall|j: int| 0 <= j < index ==> #[trigger] out@[j]@ == value_entry(option.values@, j),
        decreases RETRO_NUM_CORE_OPTION_VALUES_MAX - 1 - index,
    {
        let entry = if index < option.values.len() {
            let v = &option.values[index];
            ValueEntry { value: Some(lit_byte_str(&v.value)), label: opt_lit_byte_str(&v.label) }
        } else {
            ValueEntry { value: None, label: None }
        };
        out.push(entry);
        index = index + 1;
    }
    out.push(ValueEntry { value: None, label: None });
    assert(out@.map_values(|v: ValueEntry| v@) =~= value_entries(option.values@));
    out
}

/// The default value of an option; a null pointer where it has none.
pub fn get_option_default_value(option: &CoreOptionV2) -> (res: Option<ByteLit>)
    ensures
        opt_view(res) == opt_c_string(option.default_value),
{
    opt_lit_byte_str(&option.default_value)
}

/// The definition of an option.
pub fn option_definition(option: &CoreOptionV2) -> (res: OptionEntry)
    ensures
        res@ == option_entry(option@),
{
    let res = OptionEntry {
        key: lit_byte_str(&option.key),
        desc: lit_byte_str(&option.desc),
        info: lit_byte_str(&option.info),
        desc_categorized: lit_byte_str_or_empty(&option.desc_categorized),
        info_categorized: lit_byte_str_or_empty(&option.info_categorized),
        category_key: lit_byte_str_or_empty(&option.category_key),
        values: get_option_values(option),
        default_value: get_option_default_value(option),
    };
    res
}

/// The variable of an option.
pub fn option_variable(option: &CoreOptionV2) -> (res: VariableEntry)
    ensures
        res@ == variable_entry(option@),
{
    let mut text = option.desc.value.clone();
    text.append("; ");
    proof {
        reveal_strlit("; ");
    }
    let ghost head = option.desc.value@ + seq![';', ' '];
    assert(text@ =~= head);
    let mut i: usize = 0;
    while i < option.values.len()
        invariant
            i <= option.values.len(),
            text@ == head + values_text(option.values@.take(i as int)),
        decreases option.values.len() - i,
    {
        let ghost before = text@;
        if i > 0 {
            text.append("|");
            proof {
                reveal_strlit("|");
            }
        }
        text.append(option.values[i].value.value.as_str());
        proof {
            let vs = option.values@.take(i as int + 1);
            assert(vs.drop_last() =~= option.values@.take(i as int));
            if i == 0 {
                assert(values_text(option.values@.take(0)) =~= Seq::<char>::empty());
                assert(text@ =~= head + values_text(vs));
            } else {
                assert(text@ =~= head + values_text(vs));
            }
        }
        i = i + 1;
    }
    assert(option.values@.take(option.values.len() as int) =~= option.values@);
    VariableEntry {
        key: lit_byte_str(&option.key),
        value: ByteLit { bytes: utf8_bytes(&text), span: Some(option.desc.id) },
    }
}

/// The definition of a category.
pub fn category_definition(category: &CoreOptionCategory) -> (res: CategoryEntry)
    ensures
        res@ == category_entry(*category),
{
    CategoryEntry {
        key: lit_byte_str(&category.key),
        desc: lit_byte_str(&category.desc),
        info: lit_byte_str(&category.info),
    }
}

/// The tables for the given options and categories.
pub fn core_option_tables(options: &CoreOptions, categories: &CoreOptionCategories) -> (res: CoreOptionTables)
    ensures
        res@ == tables(options@, categories.0@),
{
    let mut defs: Vec<Option<OptionEntry>> = Vec::new();
    let mut vars: Vec<Option<VariableEntry>> = Vec::new();
    let mut i: usize = 0;
    while i < options.0.len()
        invariant
            i <= options.0.len(),
            defs.len() == i,
            vars.len() == i,
            forall|j: int| 0 <= j < i ==> (#[trigger] defs@[j] matches Some(e) && e@ == option_entry(options.0@[j]@)),
            forall|j: int| 0 <= j < i ==> (#[trigger] vars@[j] matches Some(e) && e@ == variable_entry(options.0@[j]@)),
        decreases options.0.len() - i,
    {
        defs.push(Some(option_definition(&options.0[i])));
        vars.push(Some(option_variable(&options.0[i])));
        i = i + 1;
    }
    defs.push(None);
    vars.push(None);
    let mut cats: Vec<Option<CategoryEntry>> = Vec::new();
    let mut k: usize = 0;
    while k < categories.0.len()
        invariant
            k <= categories.0.len(),
            cats.len() == k,
            forall|j: int| 0 <= j < k ==> (#[trigger] cats@[j] matches Some(e) && e@ == category_entry(categories.0@[j])),
        decreases categories.0.len() - k,
    {
        cats.push(Some(category_definition(&categories.0[k])));
        k = k + 1;
    }
    cats.push(None);
    let res = CoreOptionTables { options: defs, variables: vars, categories: cats };
    let ghost t = tables(options@, categories.0@);
    assert(res@.options =~= t.options);
    assert(res@.variables =~= t.variables);
    assert(res@.categories =~= t.categories);
    res
}

} // verus!
