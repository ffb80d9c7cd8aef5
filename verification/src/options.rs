//! The typed option model: schemas and runtime values.
//!
//! Each configurable attribute of a module is described by an
//! [`OptionData`] schema whose [`OptionType`] fixes the shape of its
//! values, and a runtime value is a [`ModuleOption`]. Values have two
//! textual forms: a display string for people and a serialization string
//! that is a literal of the declarative config language.

use vstd::prelude::*;

use crate::numbers::dec_str;
use crate::numbers::parse_u32_spec;
use crate::numbers::lemma_parse_dec_str;
use crate::numbers::parse_u32;
use crate::numbers::u32_to_string;
use crate::text::str_eq;

verus! {

/// One key of an enumeration option together with its display label.
#[derive(Clone, Debug, PartialEq)]
pub struct EnumChoice {
    pub key: String,
    pub label: String,
}

pub ghost struct EnumChoiceView {
    pub key: Seq<char>,
    pub label: Seq<char>,
}

impl View for EnumChoice {
    type V = EnumChoiceView;

    open spec fn view(&self) -> EnumChoiceView {
        EnumChoiceView { key: self.key@, label: self.label@ }
    }
}

impl DeepView for EnumChoice {
    type V = EnumChoiceView;

    open spec fn deep_view(&self) -> EnumChoiceView {
        self@
    }
}

/// The shape of an option's values, with the schema default.
#[derive(Clone, Debug, PartialEq)]
pub enum OptionType {
    Switch { default: bool },
    Text { default: String },
    Enum { default: String, options: Vec<EnumChoice> },
    NumberList { default: Vec<u32> },
}

pub ghost enum OptionTypeView {
    Switch { default: bool },
    Text { default: Seq<char> },
    Enum { default: Seq<char>, options: Seq<EnumChoiceView> },
    NumberList { default: Seq<u32> },
}

impl View for OptionType {
    type V = OptionTypeView;

    open spec fn view(&self) -> OptionTypeView {
        match self {
            OptionType::Switch { default } => OptionTypeView::Switch { default: *default },
            OptionType::Text { default } => OptionTypeView::Text { default: default@ },
            OptionType::Enum { default, options } => OptionTypeView::Enum {
                default: default@,
                options: options.deep_view(),
            },
            OptionType::NumberList { default } => OptionTypeView::NumberList {
                default: default@,
            },
        }
    }
}

impl DeepView for OptionType {
    type V = OptionTypeView;

    open spec fn deep_view(&self) -> OptionTypeView {
        self@
    }
}

impl OptionType {
    pub fn is_switch(&self) -> (r: bool)
        ensures
            r == (self@ is Switch),
    {
        matches!(self, OptionType::Switch { .. })
    }

    pub fn is_text(&self) -> (r: bool)
        ensures
            r == (self@ is Text),
    {
        matches!(self, OptionType::Text { .. })
    }
}

/// The schema of one configurable attribute.
#[derive(Clone, Debug, PartialEq)]
pub struct OptionData {
    pub label: String,
    pub id: String,
    pub description: Option<String>,
    pub op_type: OptionType,
}

pub ghost struct OptionDataView {
    pub label: Seq<char>,
    pub id: Seq<char>,
    pub description: Option<Seq<char>>,
    pub op_type: OptionTypeView,
}

impl View for OptionData {
    type V = OptionDataView;

    open spec fn view(&self) -> OptionDataView {
        OptionDataView {
            label: self.label@,
            id: self.id@,
            description: self.description.deep_view(),
            op_type: self.op_type@,
        }
    }
}

impl DeepView for OptionData {
    type V = OptionDataView;

    open spec fn deep_view(&self) -> OptionDataView {
        self@
    }
}

#[derive(Clone, Debug, PartialEq)]
pub enum IconType {
    File,
    System,
}

#[derive(Clone, Debug, PartialEq)]
pub struct IconData {
    pub icon_type: IconType,
    pub path: String,
}

/// A module's schema: its identity and its configurable attributes.
#[derive(Clone, Debug, PartialEq)]
pub struct ModuleData {
    pub name: String,
    pub id: String,
    pub description: Option<String>,
    pub version: String,
    pub options: Vec<OptionData>,
    pub icon: Option<IconData>,
}

pub ghost struct ModuleDataView {
    pub name: Seq<char>,
    pub id: Seq<char>,
    pub options: Seq<OptionDataView>,
}

impl View for ModuleData {
    type V = ModuleDataView;

    open spec fn view(&self) -> ModuleDataView {
        ModuleDataView { name: self.name@, id: self.id@, options: self.options.deep_view() }
    }
}

impl DeepView for ModuleData {
    type V = ModuleDataView;

    open spec fn deep_view(&self) -> ModuleDataView {
        self@
    }
}

/// A discovered module: name, filesystem location and schema.
#[derive(Clone, Debug)]
pub struct Module {
    pub name: String,
    pub path: String,
    pub config: ModuleData,
}

pub ghost struct ModuleView {
    pub name: Seq<char>,
    pub path: Seq<char>,
    pub config: ModuleDataView,
}

impl View for Module {
    type V = ModuleView;

    open spec fn view(&self) -> ModuleView {
        ModuleView { name: self.name@, path: self.path@, config: self.config@ }
    }
}

impl DeepView for Module {
    type V = ModuleView;

    open spec fn deep_view(&self) -> ModuleView {
        self@
    }
}

/// A raw schema entry as a config file declares it.
#[derive(Clone, Debug)]
pub struct ConfigDetails {
    pub description: String,
    pub config_type: String,
    pub default: Option<bool>,
}

/// A runtime value of one attribute.
#[derive(Clone, Debug, PartialEq, Eq)]
pub enum ModuleOption {
    Switch { value: bool },
    Text { value: String },
    Enum { value: String, pretty: String },
    NumberList { value: Vec<u32> },
}

pub ghost enum OptionValue {
    Switch { value: bool },
    Text { value: Seq<char> },
    Enum { value: Seq<char>, pretty: Seq<char> },
    NumberList { value: Seq<u32> },
}

impl View for ModuleOption {
    type V = OptionValue;

    open spec fn view(&self) -> OptionValue {
        match self {
            ModuleOption::Switch { value } => OptionValue::Switch { value: *value },
            ModuleOption::Text { value } => OptionValue::Text { value: value@ },
            ModuleOption::Enum { value, pretty } => OptionValue::Enum {
                value: value@,
                pretty: pretty@,
            },
            ModuleOption::NumberList { value } => OptionValue::NumberList { value: value@ },
        }
    }
}

impl DeepView for ModuleOption {
    type V = OptionValue;

    open spec fn deep_view(&self) -> OptionValue {
        self@
    }
}

impl ModuleOption {
    /// Structural equality, decided on the mathematical views.
    pub fn same_as(&self, other: &ModuleOption) -> (r: bool)
        ensures
            r == (self@ == other@),
    {
        match (self, other) {
            (ModuleOption::Switch { value: a }, ModuleOption::Switch { value: b }) => *a == *b,
            (ModuleOption::Text { value: a }, ModuleOption::Text { value: b }) => str_eq(
                a.as_str(),
                b.as_str(),
            ),
            (
                ModuleOption::Enum { value: a, pretty: ap },
                ModuleOption::Enum { value: b, pretty: bp },
            ) => str_eq(a.as_str(), b.as_str()) && str_eq(ap.as_str(), bp.as_str()),
            (
                ModuleOption::NumberList { value: a },
                ModuleOption::NumberList { value: b },
            ) => {
                let r = vec_u32_eq(a, b);
                r
            },
            _ => {
                proof {
                    assert(self@ != other@);
                }
                false
            },
        }
    }
}

/// The elements of a number list joined by `", "`.
pub open spec fn join_comma(ns: Seq<u32>) -> Seq<char>
    decreases ns.len(),
{
    if ns.len() == 0 {
        Seq::empty()
    } else if ns.len() == 1 {
        dec_str(ns[0] as nat)
    } else {
        join_comma(ns.drop_last()) + ", "@ + dec_str(ns.last() as nat)
    }
}

/// The elements of a number list joined by single spaces.
pub open spec fn join_space(ns: Seq<u32>) -> Seq<char>
    decreases ns.len(),
{
    if ns.len() == 0 {
        Seq::empty()
    } else if ns.len() == 1 {
        dec_str(ns[0] as nat)
    } else {
        join_space(ns.drop_last()) + " "@ + dec_str(ns.last() as nat)
    }
}

/// Insertion into an ascending sequence, eliding duplicates.
pub open spec fn sorted_insert_spec(s: Seq<u32>, x: u32) -> Seq<u32>
    decreases s.len(),
{
    if s.len() == 0 {
        seq![x]
    } else if s.last() < x {
        s.push(x)
    } else if s.last() == x {
        s
    } else {
        sorted_insert_spec(s.drop_last(), x).push(s.last())
    }
}

/// The canonical form of a number sequence: strictly ascending, no
/// duplicates, same elements.
pub open spec fn canon_nums(s: Seq<u32>) -> Seq<u32>
    decreases s.len(),
{
    if s.len() == 0 {
        Seq::empty()
    } else {
        sorted_insert_spec(canon_nums(s.drop_last()), s.last())
    }
}

/// The human-readable form of a value.
pub open spec fn display_of(v: OptionValue) -> Seq<char> {
    match v {
        OptionValue::Switch { value } => if value {
            "Enabled"@
        } else {
            "Disabled"@
        },
        OptionValue::Text { value } => "\""@ + value + "\""@,
        OptionValue::Enum { pretty, .. } => pretty,
        OptionValue::NumberList { value } => join_comma(value),
    }
}

/// The serialization form of a value: a literal of the config
/// language. A number list is canonicalized here — sorted ascending,
/// duplicates removed — and rendered space-separated.
pub open spec fn serial_of(v: OptionValue) -> Seq<char> {
    match v {
        OptionValue::Switch { value } => if value {
            "true"@
        } else {
            "false"@
        },
        OptionValue::Text { value } => "\""@ + value + "\""@,
        OptionValue::Enum { value, .. } => value,
        OptionValue::NumberList { value } => "[ "@ + join_space(canon_nums(value)) + " ]"@,
    }
}

/// Wraps a string in double quotes.
fn quote(s: &str) -> (r: String)
    ensures
        r@ == "\""@ + s@ + "\""@,
{
    let mut r = String::from_str("\"");
    r.append(s);
    r.append("\"");
    proof {
        assert(r@ =~= "\""@ + s@ + "\""@);
    }
    r
}

/// Renders the elements joined by `", "`.
fn join_u32(values: &Vec<u32>) -> (r: String)
    ensures
        r@ == join_comma(values@),
{
    let mut r = String::new();
    let mut i: usize = 0;
    while i < values.len()
        invariant
            0 <= i <= values@.len(),
            r@ == join_comma(values@.take(i as int)),
        decreases values@.len() - i,
    {
        if i > 0 {
            r.append(", ");
        }
        let ds = u32_to_string(values[i]);
        r.append(ds.as_str());
        proof {
            assert(values@.take(i + 1).drop_last() =~= values@.take(i as int));
            assert(values@.take(i + 1).last() == values@[i as int]);
            assert(r@ =~= join_comma(values@.take(i + 1)));
        }
        i = i + 1;
    }
    proof {
        assert(values@.take(values@.len() as int) =~= values@);
    }
    r
}

/// Renders the elements joined by single spaces.
fn join_u32_spaced(values: &Vec<u32>) -> (r: String)
    ensures
        r@ == join_space(values@),
{
    let mut r = String::new();
    let mut i: usize = 0;
    while i < values.len()
        invariant
            0 <= i <= values@.len(),
            r@ == join_space(values@.take(i as int)),
        decreases values@.len() - i,
    {
        if i > 0 {
            r.append(" ");
        }
        let ds = u32_to_string(values[i]);
        r.append(ds.as_str());
        proof {
            assert(values@.take(i + 1).drop_last() =~= values@.take(i as int));
            assert(values@.take(i + 1).last() == values@[i as int]);
            assert(r@ =~= join_space(values@.take(i + 1)));
        }
        i = i + 1;
    }
    proof {
        assert(values@.take(values@.len() as int) =~= values@);
    }
    r
}

impl ModuleOption {
    /// The display string: what a person sees for this value.
    #[allow(clippy::inherent_to_string)]
    pub fn to_string(&self) -> (r: String)
        ensures
            r@ == display_of(self@),
    {
        match self {
            ModuleOption::Switch { value } => if *value {
                "Enabled".to_owned()
            } else {
                "Disabled".to_owned()
            },
            ModuleOption::Text { value } => quote(value.as_str()),
            ModuleOption::Enum { pretty, .. } => pretty.clone(),
            ModuleOption::NumberList { value } => join_u32(value),
        }
    }

    /// The serialization string: a valid literal of the config language.
    pub fn value(&self) -> (r: String)
        ensures
            r@ == serial_of(self@),
    {
        match self {
            ModuleOption::Switch { value } => if *value {
                "true".to_owned()
            } else {
                "false".to_owned()
            },
            ModuleOption::Text { value } => quote(value.as_str()),
            ModuleOption::Enum { value, .. } => value.clone(),
            ModuleOption::NumberList { value } => {
                let canonical = numberlist_canon(value);
                let mut r = String::from_str("[ ");
                let joined = join_u32_spaced(&canonical);
                r.append(joined.as_str());
                r.append(" ]");
                proof {
                    assert(r@ =~= "[ "@ + join_space(canon_nums(value@)) + " ]"@);
                }
                r
            },
        }
    }
}

/// The label of the first declared choice with this key.
pub open spec fn lookup_label(opts: Seq<EnumChoiceView>, key: Seq<char>) -> Option<Seq<char>>
    decreases opts.len(),
{
    if opts.len() == 0 {
        None
    } else if opts[0].key == key {
        Some(opts[0].label)
    } else {
        lookup_label(opts.skip(1), key)
    }
}

/// The display label for a key, falling back to the key itself.
pub open spec fn enum_pretty(opts: Seq<EnumChoiceView>, key: Seq<char>) -> Seq<char> {
    match lookup_label(opts, key) {
        Some(label) => label,
        None => key,
    }
}

/// Switch decoding: only the two boolean literals are accepted.
pub open spec fn decode_switch_spec(t: Seq<char>) -> Option<bool> {
    if t == "true"@ {
        Some(true)
    } else if t == "false"@ {
        Some(false)
    } else {
        None
    }
}

/// Text decoding: the token must be quote-wrapped; the inside is the value.
pub open spec fn decode_text_spec(t: Seq<char>) -> Option<Seq<char>> {
    if t.len() >= 2 && t[0] == '"' && t[t.len() - 1] == '"' {
        Some(t.subrange(1, t.len() - 1))
    } else {
        None
    }
}

/// Enum decoding never fails: the token is the key, the label is looked up.
pub open spec fn decode_enum_spec(opts: Seq<EnumChoiceView>, t: Seq<char>) -> OptionValue {
    OptionValue::Enum { value: t, pretty: enum_pretty(opts, t) }
}

/// Number-list decoding: tokens that do not parse are silently dropped.
pub open spec fn decode_numbers_spec(ts: Seq<Seq<char>>) -> Seq<u32>
    decreases ts.len(),
{
    if ts.len() == 0 {
        Seq::empty()
    } else {
        let rest = decode_numbers_spec(ts.drop_last());
        match parse_u32_spec(ts.last()) {
            Some(n) => rest.push(n),
            None => rest,
        }
    }
}

/// Decoding a raw token (and, for number lists, the array tokens) under a
/// schema type. `None` means the attribute is skipped, not an error.
pub open spec fn decode_spec(
    t: OptionTypeView,
    raw: Seq<char>,
    arr: Option<Seq<Seq<char>>>,
) -> Option<OptionValue> {
    match t {
        OptionTypeView::Switch { .. } => match decode_switch_spec(raw) {
            Some(b) => Some(OptionValue::Switch { value: b }),
            None => None,
        },
        OptionTypeView::Text { .. } => match decode_text_spec(raw) {
            Some(s) => Some(OptionValue::Text { value: s }),
            None => None,
        },
        OptionTypeView::Enum { options, .. } => Some(decode_enum_spec(options, raw)),
        OptionTypeView::NumberList { .. } => match arr {
            Some(ts) => Some(OptionValue::NumberList { value: decode_numbers_spec(ts) }),
            None => None,
        },
    }
}

/// Decodes a switch token.
pub fn decode_switch(token: &str) -> (r: Option<bool>)
    ensures
        r == decode_switch_spec(token@),
{
    if str_eq(token, "true") {
        Some(true)
    } else if str_eq(token, "false") {
        Some(false)
    } else {
        None
    }
}

/// Decodes a text token by stripping the surrounding quotes.
pub fn decode_text(token: &str) -> (r: Option<String>)
    ensures
        match r {
            Some(s) => decode_text_spec(token@) == Some(s@),
            None => decode_text_spec(token@) is None,
        },
{
    let len = token.unicode_len();
    if len >= 2 && token.get_char(0) == '"' && token.get_char(len - 1) == '"' {
        Some(token.substring_char(1, len - 1).to_owned())
    } else {
        None
    }
}

/// Finds the display label declared for a key.
pub fn lookup_label_of<'a>(options: &'a Vec<EnumChoice>, key: &str) -> (r: Option<&'a String>)
    ensures
        match r {
            Some(label) => lookup_label(options.deep_view(), key@) == Some(label@),
            None => lookup_label(options.deep_view(), key@) is None,
        },
{
    let ghost opts = options.deep_view();
    proof {
        assert(opts.skip(0) =~= opts);
    }
    let mut i: usize = 0;
    while i < options.len()
        invariant
            opts == options.deep_view(),
            opts.len() == options@.len(),
            0 <= i <= options@.len(),
            lookup_label(opts, key@) == lookup_label(opts.skip(i as int), key@),
        decreases options@.len() - i,
    {
        proof {
            assert(opts[i as int] == options@[i as int].deep_view());
            assert(opts.skip(i as int)[0] == opts[i as int]);
        }
        if str_eq(options[i].key.as_str(), key) {
            return Some(&options[i].label);
        }
        proof {
            assert(opts.skip(i as int).skip(1) =~= opts.skip(i + 1));
        }
        i = i + 1;
    }
    None
}

/// Decodes an enum token: the key is kept, the label falls back to it.
pub fn decode_enum(options: &Vec<EnumChoice>, token: &str) -> (r: ModuleOption)
    ensures
        r@ == decode_enum_spec(options.deep_view(), token@),
{
    let pretty = match lookup_label_of(options, token) {
        Some(label) => label.clone(),
        None => token.to_owned(),
    };
    ModuleOption::Enum { value: token.to_owned(), pretty }
}

/// Decodes the element tokens of a number list, dropping what fails to parse.
pub fn decode_numbers(tokens: &Vec<String>) -> (r: Vec<u32>)
    ensures
        r@ == decode_numbers_spec(tokens.deep_view()),
{
    let ghost ts = tokens.deep_view();
    let mut out: Vec<u32> = Vec::new();
    let mut i: usize = 0;
    while i < tokens.len()
        invariant
            ts == tokens.deep_view(),
            ts.len() == tokens@.len(),
            0 <= i <= tokens@.len(),
            out@ == decode_numbers_spec(ts.take(i as int)),
        decreases tokens@.len() - i,
    {
        proof {
            assert(ts.take(i + 1).drop_last() =~= ts.take(i as int));
            assert(ts.take(i + 1).last() == ts[i as int]);
            assert(ts[i as int] == tokens@[i as int]@);
        }
        if let Some(n) = parse_u32(tokens[i].as_str()) {
            out.push(n);
        }
        i = i + 1;
    }
    proof {
        assert(ts.take(tokens@.len() as int) =~= ts);
    }
    out
}

/// The serialization shape a raw value string must have for a schema type.
pub open spec fn valid_serial(t: OptionTypeView, s: Seq<char>) -> bool {
    match t {
        OptionTypeView::Switch { .. } => s == "true"@ || s == "false"@,
        OptionTypeView::Text { .. } => s.len() >= 2 && s[0] == '"' && s[s.len() - 1] == '"',
        OptionTypeView::Enum { options, .. } => exists|i: int|
            0 <= i < options.len() && (#[trigger] options[i]).label == s,
        OptionTypeView::NumberList { .. } => s.len() >= 1 && s[0] == '[' && s[s.len() - 1]
            == ']',
    }
}

/// Checks a raw serialization string against a schema type's shape.
pub fn validate_serial(op_type: &OptionType, value: &str) -> (r: bool)
    ensures
        r == valid_serial(op_type@, value@),
{
    match op_type {
        OptionType::Switch { .. } => str_eq(value, "true") || str_eq(value, "false"),
        OptionType::Text { .. } => {
            let len = value.unicode_len();
            len >= 2 && value.get_char(0) == '"' && value.get_char(len - 1) == '"'
        },
        OptionType::Enum { default, options } => {
            let ghost opts = options.deep_view();
            proof {
                assert(op_type@ == OptionTypeView::Enum { default: default@, options: opts });
            }
            let mut i: usize = 0;
            while i < options.len()
                invariant
                    op_type@ == (OptionTypeView::Enum { default: default@, options: opts }),
                    opts == options.deep_view(),
                    opts.len() == options@.len(),
                    0 <= i <= options@.len(),
                    forall|j: int| 0 <= j < i ==> (#[trigger] opts[j]).label != value@,
                decreases options@.len() - i,
            {
                proof {
                    assert(opts[i as int] == options@[i as int].deep_view());
                }
                if str_eq(options[i].label.as_str(), value) {
                    proof {
                        match op_type@ {
                            OptionTypeView::Enum { default: d2, options: o2 } => {
                                assert(o2 == opts);
                                assert(0 <= i < o2.len() && (o2[i as int]).label == value@);
                                assert(exists|j: int|
                                    0 <= j < o2.len() && (#[trigger] o2[j]).label == value@);
                                assert(valid_serial(op_type@, value@));
                            },
                            _ => {
                                assert(false);
                            },
                        }
                    }
                    return true;
                }
                i = i + 1;
            }
            false
        },
        OptionType::NumberList { .. } => {
            let len = value.unicode_len();
            len >= 1 && value.get_char(0) == '[' && value.get_char(len - 1) == ']'
        },
    }
}

/// The element tokens that the serialization of a number list carries;
/// other variants serialize to a single raw token.
pub open spec fn serial_tokens(v: OptionValue) -> Option<Seq<Seq<char>>> {
    match v {
        OptionValue::NumberList { value } => Some(
            canon_nums(value).map(|i: int, n: u32| dec_str(n as nat)),
        ),
        _ => None,
    }
}

/// A value is consistent with a schema type: same variant, and an enum
/// label that agrees with the declared choices.
pub open spec fn value_fits(t: OptionTypeView, v: OptionValue) -> bool {
    match (t, v) {
        (OptionTypeView::Switch { .. }, OptionValue::Switch { .. }) => true,
        (OptionTypeView::Text { .. }, OptionValue::Text { .. }) => true,
        (
            OptionTypeView::Enum { options, .. },
            OptionValue::Enum { value, pretty },
        ) => pretty == enum_pretty(options, value),
        (
            OptionTypeView::NumberList { .. },
            OptionValue::NumberList { value },
        ) => sorted_strict(value),
        _ => false,
    }
}

/// Parsing the decimal renderings of a number sequence gives it back.
proof fn lemma_decode_tokens(ns: Seq<u32>)
    ensures
        decode_numbers_spec(ns.map(|i: int, n: u32| dec_str(n as nat))) == ns,
    decreases ns.len(),
{
    let ts = ns.map(|i: int, n: u32| dec_str(n as nat));
    if ns.len() == 0 {
        assert(decode_numbers_spec(ts) =~= ns);
    } else {
        lemma_decode_tokens(ns.drop_last());
        assert(ts.drop_last() =~= ns.drop_last().map(|i: int, n: u32| dec_str(n as nat)));
        assert(ts.last() == dec_str(ns.last() as nat));
        lemma_parse_dec_str(ns.last());
        assert(decode_numbers_spec(ts) =~= ns);
    }
}

/// Round trip: decoding the serialization of any schema-consistent value
/// yields the value again.
pub proof fn lemma_round_trip(t: OptionTypeView, v: OptionValue)
    requires
        value_fits(t, v),
    ensures
        decode_spec(t, serial_of(v), serial_tokens(v)) == Some(v),
{
    match v {
        OptionValue::Switch { value } => {
            reveal_strlit("true");
            reveal_strlit("false");
            assert("true"@.len() == 4);
            assert("false"@.len() == 5);
        },
        OptionValue::Text { value } => {
            reveal_strlit("\"");
            let s = serial_of(v);
            assert(s.len() == value.len() + 2);
            assert(s[0] == '"');
            assert(s[s.len() - 1] == '"');
            assert(s.subrange(1, s.len() - 1) =~= value);
        },
        OptionValue::Enum { value, pretty } => {},
        OptionValue::NumberList { value } => {
            lemma_canon_of_sorted(value);
            lemma_decode_tokens(value);
        },
    }
}

/// Strictly ascending: sorted with no duplicates.
pub open spec fn sorted_strict(s: Seq<u32>) -> bool {
    forall|i: int, j: int| 0 <= i < j < s.len() ==> s[i] < s[j]
}

/// In a strictly ascending sequence, everything but the last element
/// is an element other than the last.
proof fn lemma_drop_last_contains(s: Seq<u32>, y: u32)
    requires
        sorted_strict(s),
        s.len() > 0,
    ensures
        s.drop_last().contains(y) <==> (s.contains(y) && y != s.last()),
{
    if s.drop_last().contains(y) {
        let k = choose|k: int| 0 <= k < s.drop_last().len() && s.drop_last()[k] == y;
        assert(s[k] == y);
        assert(s[k] < s.last());
    }
    if s.contains(y) && y != s.last() {
        let k = choose|k: int| 0 <= k < s.len() && s[k] == y;
        assert(k < s.len() - 1);
        assert(s.drop_last()[k] == y);
    }
}

/// Two strictly ascending sequences with the same elements are equal.
proof fn lemma_sorted_unique_eq(a: Seq<u32>, b: Seq<u32>)
    requires
        sorted_strict(a),
        sorted_strict(b),
        forall|y: u32| a.contains(y) <==> #[trigger] b.contains(y),
    ensures
        a == b,
    decreases a.len(),
{
    if a.len() == 0 {
        if b.len() > 0 {
            assert(b.contains(b.last()));
            assert(a.contains(b.last()));
            let k = choose|k: int| 0 <= k < a.len() && a[k] == b.last();
        }
        assert(a =~= b);
    } else {
        assert(a.contains(a.last()));
        assert(b.contains(a.last()));
        assert(b.len() > 0);
        assert(b.contains(b.last()));
        assert(a.contains(b.last()));
        let ja = choose|j: int| 0 <= j < b.len() && b[j] == a.last();
        assert(b[ja] <= b.last());
        let jb = choose|j: int| 0 <= j < a.len() && a[j] == b.last();
        assert(a[jb] <= a.last());
        assert(a.last() == b.last());
        assert(sorted_strict(a.drop_last()));
        assert(sorted_strict(b.drop_last()));
        assert forall|y: u32| a.drop_last().contains(y) <==> #[trigger] b.drop_last().contains(
            y,
        ) by {
            lemma_drop_last_contains(a, y);
            lemma_drop_last_contains(b, y);
        }
        lemma_sorted_unique_eq(a.drop_last(), b.drop_last());
        assert(a.len() == b.len());
        assert forall|i: int| 0 <= i < a.len() implies a[i] == b[i] by {
            if i < a.len() - 1 {
                assert(a.drop_last()[i] == a[i]);
                assert(b.drop_last()[i] == b[i]);
                assert(a.drop_last() == b.drop_last());
            } else {
                assert(a[i] == a.last());
                assert(b[i] == b.last());
            }
        }
        assert(a =~= b);
    }
}

/// Spec-level insertion keeps a strictly ascending sequence so, and
/// adds exactly the new element.
proof fn lemma_sorted_insert_props(s: Seq<u32>, x: u32)
    requires
        sorted_strict(s),
    ensures
        sorted_strict(sorted_insert_spec(s, x)),
        forall|y: u32| #[trigger] sorted_insert_spec(s, x).contains(y) <==> (s.contains(y) || y
            == x),
    decreases s.len(),
{
    let r = sorted_insert_spec(s, x);
    if s.len() == 0 {
        assert(r =~= seq![x]);
        assert forall|y: u32| #[trigger] r.contains(y) <==> (s.contains(y) || y == x) by {
            if r.contains(y) {
                let k = choose|k: int| 0 <= k < r.len() && r[k] == y;
                assert(y == x);
            }
            if y == x {
                assert(r[0] == y);
            }
        }
    } else if s.last() < x {
        assert(r == s.push(x));
        assert forall|a: int, b: int| 0 <= a < b < r.len() implies r[a] < r[b] by {
            if b == r.len() - 1 {
                assert(r[a] == s[a]);
                assert(s[a] <= s.last());
            } else {
                assert(r[a] == s[a] && r[b] == s[b]);
            }
        }
        assert forall|y: u32| #[trigger] r.contains(y) <==> (s.contains(y) || y == x) by {
            if r.contains(y) {
                let k = choose|k: int| 0 <= k < r.len() && r[k] == y;
                if k < r.len() - 1 {
                    assert(s[k] == y);
                } else {
                    assert(y == x);
                }
            }
            if s.contains(y) {
                let k = choose|k: int| 0 <= k < s.len() && s[k] == y;
                assert(r[k] == y);
            }
            if y == x {
                assert(r[r.len() - 1] == y);
            }
        }
    } else if s.last() == x {
        assert forall|y: u32| #[trigger] r.contains(y) <==> (s.contains(y) || y == x) by {
            if y == x {
                assert(s[s.len() - 1] == y);
            }
        }
    } else {
        assert(sorted_strict(s.drop_last()));
        lemma_sorted_insert_props(s.drop_last(), x);
        let rr = sorted_insert_spec(s.drop_last(), x);
        assert(r == rr.push(s.last()));
        assert forall|a: int| 0 <= a < rr.len() implies rr[a] < s.last() by {
            assert(rr.contains(rr[a]));
            if s.drop_last().contains(rr[a]) {
                let k = choose|k: int|
                    0 <= k < s.drop_last().len() && s.drop_last()[k] == rr[a];
                assert(s[k] == rr[a]);
                assert(s[k] < s.last());
            } else {
                assert(rr[a] == x);
            }
        }
        assert forall|a: int, b: int| 0 <= a < b < r.len() implies r[a] < r[b] by {
            if b == r.len() - 1 {
                assert(r[a] == rr[a]);
                assert(rr[a] < s.last());
            } else {
                assert(r[a] == rr[a] && r[b] == rr[b]);
            }
        }
        assert forall|y: u32| #[trigger] r.contains(y) <==> (s.contains(y) || y == x) by {
            lemma_drop_last_contains(s, y);
            if r.contains(y) {
                let k = choose|k: int| 0 <= k < r.len() && r[k] == y;
                if k < r.len() - 1 {
                    assert(rr[k] == y);
                    assert(rr.contains(y));
                } else {
                    assert(y == s.last());
                    assert(s[s.len() - 1] == y);
                }
            }
            if s.contains(y) && y != s.last() {
                assert(s.drop_last().contains(y));
                assert(rr.contains(y));
                let k = choose|k: int| 0 <= k < rr.len() && rr[k] == y;
                assert(r[k] == y);
            }
            if y == s.last() {
                assert(r[r.len() - 1] == y);
            }
            if y == x {
                assert(rr.contains(y));
                let k = choose|k: int| 0 <= k < rr.len() && rr[k] == y;
                assert(r[k] == y);
            }
        }
    }
}

/// The canonical form is strictly ascending and holds the same
/// elements as its input.
proof fn lemma_canon_props(s: Seq<u32>)
    ensures
        sorted_strict(canon_nums(s)),
        forall|y: u32| #[trigger] canon_nums(s).contains(y) <==> s.contains(y),
    decreases s.len(),
{
    if s.len() == 0 {
        assert forall|y: u32| #[trigger] canon_nums(s).contains(y) <==> s.contains(y) by {
            if canon_nums(s).contains(y) {
                let k = choose|k: int| 0 <= k < canon_nums(s).len() && canon_nums(s)[k] == y;
            }
        }
    } else {
        lemma_canon_props(s.drop_last());
        lemma_sorted_insert_props(canon_nums(s.drop_last()), s.last());
        assert forall|y: u32| #[trigger] canon_nums(s).contains(y) <==> s.contains(y) by {
            if canon_nums(s).contains(y) {
                if s.drop_last().contains(y) {
                    let k = choose|k: int|
                        0 <= k < s.drop_last().len() && s.drop_last()[k] == y;
                    assert(s[k] == y);
                } else {
                    assert(y == s.last());
                    assert(s[s.len() - 1] == y);
                }
            }
            if s.contains(y) {
                let k = choose|k: int| 0 <= k < s.len() && s[k] == y;
                if k < s.len() - 1 {
                    assert(s.drop_last()[k] == y);
                    assert(s.drop_last().contains(y));
                }
            }
        }
    }
}

/// A strictly ascending sequence is already canonical.
pub proof fn lemma_canon_of_sorted(s: Seq<u32>)
    requires
        sorted_strict(s),
    ensures
        canon_nums(s) == s,
{
    lemma_canon_props(s);
    lemma_sorted_unique_eq(canon_nums(s), s);
}

/// Inserts a number into a strictly ascending vector, keeping it so.
fn insert_sorted(v: &mut Vec<u32>, x: u32)
    requires
        sorted_strict(old(v)@),
    ensures
        sorted_strict(final(v)@),
        forall|y: u32| #[trigger] final(v)@.contains(y) <==> (old(v)@.contains(y) || y == x),
{
    let mut i: usize = 0;
    while i < v.len() && v[i] < x
        invariant
            0 <= i <= v@.len(),
            v@ == old(v)@,
            forall|j: int| 0 <= j < i ==> v@[j] < x,
        decreases v@.len() - i,
    {
        i = i + 1;
    }
    if i < v.len() && v[i] == x {
        proof {
            assert(v@.contains(x)) by {
                assert(v@[i as int] == x);
            }
        }
        return ;
    }
    let ghost pre = v@;
    v.insert(i, x);
    proof {
        assert forall|a: int, b: int| 0 <= a < b < v@.len() implies v@[a] < v@[b] by {
            if b < i {
                assert(v@[a] == pre[a] && v@[b] == pre[b]);
            } else if a < i && b == i {
                assert(v@[a] == pre[a] && v@[b] == x);
            } else if a < i && b > i {
                assert(v@[a] == pre[a] && v@[b] == pre[b - 1]);
                if b - 1 > i - 1 && b - 1 >= i {
                    assert(pre[b - 1] >= pre[i as int] || b - 1 == i);
                }
            } else if a == i {
                assert(v@[a] == x && v@[b] == pre[b - 1]);
                assert(pre[b - 1] >= pre[i as int]);
            } else {
                assert(v@[a] == pre[a - 1] && v@[b] == pre[b - 1]);
            }
        }
        assert forall|y: u32| #[trigger] v@.contains(y) <==> (pre.contains(y) || y == x) by {
            if v@.contains(y) {
                let k = choose|k: int| 0 <= k < v@.len() && v@[k] == y;
                if k < i {
                    assert(pre[k] == y);
                    assert(pre.contains(y));
                } else if k == i {
                    assert(y == x);
                } else {
                    assert(pre[k - 1] == y);
                    assert(pre.contains(y));
                }
            }
            if pre.contains(y) {
                let k = choose|k: int| 0 <= k < pre.len() && pre[k] == y;
                if k < i {
                    assert(v@[k] == y);
                } else {
                    assert(v@[k + 1] == y);
                }
            }
            if y == x {
                assert(v@[i as int] == y);
            }
        }
    }
}

/// The canonical form of a number list: strictly ascending, no
/// duplicates, same elements, whatever order the input had.
pub fn numberlist_canon(values: &Vec<u32>) -> (r: Vec<u32>)
    ensures
        r@ == canon_nums(values@),
        sorted_strict(r@),
        forall|y: u32| #[trigger] r@.contains(y) <==> values@.contains(y),
{
    let mut out: Vec<u32> = Vec::new();
    let mut i: usize = 0;
    while i < values.len()
        invariant
            0 <= i <= values@.len(),
            sorted_strict(out@),
            forall|y: u32| #[trigger] out@.contains(y) <==> values@.take(i as int).contains(y),
        decreases values@.len() - i,
    {
        let ghost before = values@.take(i as int);
        insert_sorted(&mut out, values[i]);
        proof {
            let after = values@.take(i + 1);
            assert forall|y: u32| after.contains(y) <==> (before.contains(
                y,
            ) || y == values@[i as int]) by {
                if after.contains(y) {
                    let k = choose|k: int| 0 <= k < after.len() && after[k] == y;
                    if k < i {
                        assert(before[k] == y);
                        assert(before.contains(y));
                    }
                }
                if before.contains(y) {
                    let k = choose|k: int| 0 <= k < before.len() && before[k] == y;
                    assert(after[k] == y);
                }
                if y == values@[i as int] {
                    assert(after[i as int] == y);
                }
            }
        }
        i = i + 1;
    }
    proof {
        assert(values@.take(values@.len() as int) =~= values@);
        lemma_canon_props(values@);
        lemma_sorted_unique_eq(out@, canon_nums(values@));
    }
    out
}

/// Adds an element to a number list, canonicalizing the result: the
/// outcome is strictly ascending, has no duplicates, and holds exactly
/// the old elements plus the new one, whatever order the input had.
pub fn numberlist_add(values: &Vec<u32>, n: u32) -> (r: Vec<u32>)
    ensures
        sorted_strict(r@),
        forall|y: u32| #[trigger] r@.contains(y) <==> (values@.contains(y) || y == n),
{
    let mut out = numberlist_canon(values);
    insert_sorted(&mut out, n);
    out
}

/// Removes an element from a number list, canonicalizing the result in
/// the same way as an addition does.
pub fn numberlist_remove(values: &Vec<u32>, n: u32) -> (r: Vec<u32>)
    ensures
        sorted_strict(r@),
        forall|y: u32| #[trigger] r@.contains(y) <==> (values@.contains(y) && y != n),
{
    let mut out: Vec<u32> = Vec::new();
    let mut i: usize = 0;
    while i < values.len()
        invariant
            0 <= i <= values@.len(),
            sorted_strict(out@),
            forall|y: u32| #[trigger] out@.contains(y) <==> (values@.take(i as int).contains(y)
                && y != n),
        decreases values@.len() - i,
    {
        let ghost before = values@.take(i as int);
        let x = values[i];
        if x != n {
            insert_sorted(&mut out, x);
        }
        proof {
            let after = values@.take(i + 1);
            assert forall|y: u32| after.contains(y) <==> (before.contains(
                y,
            ) || y == values@[i as int]) by {
                if after.contains(y) {
                    let k = choose|k: int| 0 <= k < after.len() && after[k] == y;
                    if k < i {
                        assert(before[k] == y);
                        assert(before.contains(y));
                    }
                }
                if before.contains(y) {
                    let k = choose|k: int| 0 <= k < before.len() && before[k] == y;
                    assert(after[k] == y);
                }
                if y == values@[i as int] {
                    assert(after[i as int] == y);
                }
            }
        }
        i = i + 1;
    }
    proof {
        assert(values@.take(values@.len() as int) =~= values@);
    }
    out
}

/// Element-wise equality of two number vectors.
fn vec_u32_eq(a: &Vec<u32>, b: &Vec<u32>) -> (r: bool)
    ensures
        r == (a@ == b@),
{
    if a.len() != b.len() {
        proof {
            assert(a@ != b@);
        }
        return false;
    }
    let mut i: usize = 0;
    while i < a.len()
        invariant
            a@.len() == b@.len(),
            0 <= i <= a@.len(),
            forall|j: int| 0 <= j < i ==> a@[j] == b@[j],
        decreases a@.len() - i,
    {
        if a[i] != b[i] {
            proof {
                assert(a@[i as int] != b@[i as int]);
            }
            return false;
        }
        i = i + 1;
    }
    proof {
        assert(a@ =~= b@);
    }
    true
}

} // verus!
