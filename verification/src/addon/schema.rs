//! Parameter declarations and values: the declaration of each parameter
//! kind with its default and UI hints, the current values of an instance,
//! and the checks that do not involve floating point — integer ranges, enum
//! membership, `#rrggbb` / `#rrggbbaa` colours, type mismatches. Float
//! defaults and bounds are carried as the bit patterns of their values.

use crate::keyed::{keyed_map, keys_unique, lemma_keyed_has, lemma_keyed_keys, lemma_keyed_len, lemma_keyed_push, lemma_keyed_update};
use crate::text::{debug_quote, debug_text, i64_text, signed_decimal, str_eq};
use vstd::prelude::*;
use vstd::string::{StrSliceExecFns, StringExecFns};

verus! {

broadcast use vstd::string::to_string_from_display_ensures_for_str;

/// A concrete parameter value as carried in a pipeline config. A float is
/// carried as the bit pattern of its `f64` value.
#[derive(Debug, Clone, PartialEq)]
pub enum ParamValue {
    Bool(bool),
    I32(i64),
    F32(u64),
    Str(String),
}

/// A parameter value with any text taken as its characters.
pub enum ParamValueView {
    Bool(bool),
    I32(i64),
    F32(u64),
    Str(Seq<char>),
}

impl View for ParamValue {
    type V = ParamValueView;

    open spec fn view(&self) -> ParamValueView {
        match self {
            ParamValue::Bool(b) => ParamValueView::Bool(*b),
            ParamValue::I32(i) => ParamValueView::I32(*i),
            ParamValue::F32(f) => ParamValueView::F32(*f),
            ParamValue::Str(s) => ParamValueView::Str(s@),
        }
    }
}

/// Copy a parameter value.
pub fn clone_param(v: &ParamValue) -> (r: ParamValue)
    ensures r@ == v@,
{
    match v {
        ParamValue::Bool(b) => ParamValue::Bool(*b),
        ParamValue::I32(i) => ParamValue::I32(*i),
        ParamValue::F32(f) => ParamValue::F32(*f),
        ParamValue::Str(s) => ParamValue::Str(s.clone()),
    }
}

/// The name of a value's type, as reported in a type mismatch.
pub fn value_type_name(v: &ParamValue) -> (r: &'static str)
    ensures
        r@ == (match v {
            ParamValue::Bool(_) => "bool"@,
            ParamValue::I32(_) => "int"@,
            ParamValue::F32(_) => "float"@,
            ParamValue::Str(_) => "string"@,
        }),
{
    match v {
        ParamValue::Bool(_) => "bool",
        ParamValue::I32(_) => "int",
        ParamValue::F32(_) => "float",
        ParamValue::Str(_) => "string",
    }
}

/// Current parameter values by key; inserting an existing key replaces its
/// value.
pub struct ParamMap {
    entries: Vec<(String, ParamValue)>,
}

impl ParamMap {
    closed spec fn rows(&self) -> Seq<(Seq<char>, ParamValueView)> {
        self.entries@.map_values(|e: (String, ParamValue)| (e.0@, e.1@))
    }

    #[verifier::type_invariant]
    closed spec fn keys_distinct(&self) -> bool {
        keys_unique(self.rows())
    }

    /// The values by key.
    pub closed spec fn spec_map(&self) -> Map<Seq<char>, ParamValueView> {
        keyed_map(self.rows())
    }

    pub fn new() -> (r: Self)
        ensures
            r.spec_map() == Map::<Seq<char>, ParamValueView>::empty(),
    {
        let r = ParamMap { entries: Vec::new() };
        assert(r.rows() =~= Seq::<(Seq<char>, ParamValueView)>::empty());
        r
    }

    fn find(&self, key: &str) -> (r: Option<usize>)
        ensures
            r matches Some(i) ==> i < self.rows().len() && self.rows()[i as int].0 == key@,
            r is None ==> forall|i: int| 0 <= i < self.rows().len() ==> self.rows()[i].0 != key@,
    {
        let mut i: usize = 0;
        while i < self.entries.len()
            invariant
                i <= self.entries@.len(),
                forall|k: int| 0 <= k < i ==> self.rows()[k].0 != key@,
            decreases self.entries@.len() - i,
        {
            if str_eq(self.entries[i].0.as_str(), key) {
                return Some(i);
            }
            i = i + 1;
        }
        None
    }

    /// Set `key` to `value`, replacing any earlier value.
    pub fn insert(&mut self, key: String, value: ParamValue)
        ensures
            final(self).spec_map() == old(self).spec_map().insert(key@, value@),
    {
        proof { use_type_invariant(&*self); }
        let ghost s0 = self.rows();
        match self.find(key.as_str()) {
            Some(i) => {
                proof { lemma_keyed_update(s0, i as int, value@); }
                let mut entries: Vec<(String, ParamValue)> = Vec::new();
                std::mem::swap(&mut entries, &mut self.entries);
                entries.set(i, (key, value));
                assert(entries@.map_values(|e: (String, ParamValue)| (e.0@, e.1@)) =~= s0.update(i as int, (s0[i as int].0, value@)));
                self.entries = entries;
                assert(self.rows() =~= s0.update(i as int, (s0[i as int].0, value@)));
            },
            None => {
                proof {
                    lemma_keyed_keys(s0, key@);
                    lemma_keyed_push(s0, key@, value@);
                }
                let mut entries: Vec<(String, ParamValue)> = Vec::new();
                std::mem::swap(&mut entries, &mut self.entries);
                entries.push((key, value));
                assert(entries@.map_values(|e: (String, ParamValue)| (e.0@, e.1@)) =~= s0.push((key@, value@)));
                self.entries = entries;
                assert(self.rows() =~= s0.push((key@, value@)));
            },
        }
    }

    /// The value of `key`, if set.
    pub fn get(&self, key: &str) -> (r: Option<&ParamValue>)
        ensures
            r is Some <==> self.spec_map().contains_key(key@),
            r matches Some(v) ==> v@ == self.spec_map()[key@],
    {
        proof { use_type_invariant(self); }
        match self.find(key) {
            Some(i) => {
                proof { lemma_keyed_has(self.rows(), i as int); }
                Some(&self.entries[i].1)
            },
            None => {
                proof { lemma_keyed_keys(self.rows(), key@); }
                None
            },
        }
    }

    /// How many keys are set.
    pub fn len(&self) -> (r: usize)
        ensures
            r == self.spec_map().dom().len(),
    {
        proof {
            use_type_invariant(self);
            lemma_keyed_len(self.rows());
        }
        self.entries.len()
    }
}

impl Clone for ParamMap {
    fn clone(&self) -> (r: Self)
        ensures
            r.spec_map() == self.spec_map(),
    {
        proof { use_type_invariant(self); }
        let ghost rows = self.rows();
        let mut entries: Vec<(String, ParamValue)> = Vec::new();
        let mut i: usize = 0;
        while i < self.entries.len()
            invariant
                i <= self.entries@.len(),
                rows == self.rows(),
                keys_unique(rows),
                entries@.len() == i,
                forall|k: int| 0 <= k < i ==> (#[trigger] entries@[k]).0@ == rows[k].0 && entries@[k].1@ == rows[k].1,
            decreases self.entries@.len() - i,
        {
            let key = self.entries[i].0.clone();
            let value = clone_param(&self.entries[i].1);
            assert(rows[i as int] == (key@, value@));
            entries.push((key, value));
            i = i + 1;
        }
        let r = ParamMap { entries };
        assert(r.rows() =~= rows);
        r
    }
}

impl Default for ParamMap {
    fn default() -> (r: Self)
        ensures
            r.spec_map() == Map::<Seq<char>, ParamValueView>::empty(),
    {
        ParamMap::new()
    }
}

/// Labels that drive a generated config editor.
#[derive(Debug, Clone, Default)]
pub struct UiHints {
    pub label: Option<String>,
    pub group: Option<String>,
    pub help: Option<String>,
}

/// One parameter declaration; its kind fixes the value type and the rules
/// a value must meet. Float defaults and bounds are the declared `f32`
/// values widened to `f64`, as bit patterns.
#[derive(Debug, Clone)]
pub enum ParamSpec {
    F32 { default: u64, min: Option<u64>, max: Option<u64>, ui: UiHints },
    I32 { default: i32, min: Option<i32>, max: Option<i32>, ui: UiHints },
    Bool { default: bool, ui: UiHints },
    Enum { default: String, values: Vec<String>, ui: UiHints },
    /// `#rrggbb` or `#rrggbbaa`.
    Color { default: String, ui: UiHints },
    Text { default: String, ui: UiHints },
}

impl ParamSpec {
    /// The value an unset key takes.
    pub fn default_value(&self) -> (r: ParamValue)
        ensures
            r@ == (match self {
                ParamSpec::F32 { default, .. } => ParamValueView::F32(*default),
                ParamSpec::I32 { default, .. } => ParamValueView::I32(*default as i64),
                ParamSpec::Bool { default, .. } => ParamValueView::Bool(*default),
                ParamSpec::Enum { default, .. } => ParamValueView::Str(default@),
                ParamSpec::Color { default, .. } => ParamValueView::Str(default@),
                ParamSpec::Text { default, .. } => ParamValueView::Str(default@),
            }),
    {
        match self {
            ParamSpec::F32 { default, .. } => ParamValue::F32(*default),
            ParamSpec::I32 { default, .. } => ParamValue::I32(*default as i64),
            ParamSpec::Bool { default, .. } => ParamValue::Bool(*default),
            ParamSpec::Enum { default, .. } => ParamValue::Str(default.clone()),
            ParamSpec::Color { default, .. } => ParamValue::Str(default.clone()),
            ParamSpec::Text { default, .. } => ParamValue::Str(default.clone()),
        }
    }

    /// The name of the declaration's type.
    pub open spec fn kind_text(&self) -> Seq<char> {
        match self {
            ParamSpec::F32 { .. } => "f32"@,
            ParamSpec::I32 { .. } => "i32"@,
            ParamSpec::Bool { .. } => "bool"@,
            ParamSpec::Enum { .. } => "enum"@,
            ParamSpec::Color { .. } => "color"@,
            ParamSpec::Text { .. } => "text"@,
        }
    }

    /// The declaration's type, as reported in a type mismatch.
    pub fn kind_name(&self) -> (r: &'static str)
        ensures
            r@ == self.kind_text(),
    {
        match self {
            ParamSpec::F32 { .. } => "f32",
            ParamSpec::I32 { .. } => "i32",
            ParamSpec::Bool { .. } => "bool",
            ParamSpec::Enum { .. } => "enum",
            ParamSpec::Color { .. } => "color",
            ParamSpec::Text { .. } => "text",
        }
    }

    /// The declaration's UI hints.
    pub fn ui(&self) -> (r: &UiHints)
        ensures
            *r == (match self {
                ParamSpec::F32 { ui, .. } => *ui,
                ParamSpec::I32 { ui, .. } => *ui,
                ParamSpec::Bool { ui, .. } => *ui,
                ParamSpec::Enum { ui, .. } => *ui,
                ParamSpec::Color { ui, .. } => *ui,
                ParamSpec::Text { ui, .. } => *ui,
            }),
    {
        match self {
            ParamSpec::F32 { ui, .. } => ui,
            ParamSpec::I32 { ui, .. } => ui,
            ParamSpec::Bool { ui, .. } => ui,
            ParamSpec::Enum { ui, .. } => ui,
            ParamSpec::Color { ui, .. } => ui,
            ParamSpec::Text { ui, .. } => ui,
        }
    }

    /// Whether `v` meets this declaration, for every declaration kind but a
    /// float one (whose range check compares floats): `None` for a float
    /// declaration with a numeric value, else the verdict.
    pub fn validate_non_float(&self, v: &ParamValue) -> (r: Option<Result<(), String>>)
        ensures
            r is None <==> (self is F32 && (v is F32 || v is I32)),
            r matches Some(res) ==> (match (self, v) {
                (ParamSpec::I32 { min, max, .. }, ParamValue::I32(i)) => match range_problem(
                    *i,
                    match min { Some(m) => Some(*m as i64), None => None },
                    match max { Some(m) => Some(*m as i64), None => None },
                ) {
                    None => res is Ok,
                    Some(msg) => res is Err && res->Err_0@ == msg,
                },
                (ParamSpec::Bool { .. }, ParamValue::Bool(_)) => res is Ok,
                (ParamSpec::Enum { values, .. }, ParamValue::Str(s)) => {
                    &&& (res is Ok <==> string_texts(values@).contains(s@))
                    &&& res is Err ==> res->Err_0@ == "value "@ + debug_text(s@) + " not in enum "@ + debug_list(string_texts(values@))
                },
                (ParamSpec::Color { .. }, ParamValue::Str(s)) => match color_problem(s@) {
                    None => res is Ok,
                    Some(msg) => res is Err && res->Err_0@ == msg,
                },
                (ParamSpec::Text { .. }, ParamValue::Str(_)) => res is Ok,
                _ => res is Err && res->Err_0@ == "type mismatch: expected "@ + self.kind_text() + ", got "@ + (match v {
                    ParamValue::Bool(_) => "bool"@,
                    ParamValue::I32(_) => "int"@,
                    ParamValue::F32(_) => "float"@,
                    ParamValue::Str(_) => "string"@,
                }),
            }),
    {
        match (self, v) {
            (ParamSpec::F32 { .. }, ParamValue::F32(_)) => None,
            (ParamSpec::F32 { .. }, ParamValue::I32(_)) => None,
            (ParamSpec::I32 { min, max, .. }, ParamValue::I32(i)) => {
                let lo = match min { Some(m) => Some(*m as i64), None => None };
                let hi = match max { Some(m) => Some(*m as i64), None => None };
                Some(check_range(*i, lo, hi))
            },
            (ParamSpec::Bool { .. }, ParamValue::Bool(_)) => Some(Ok(())),
            (ParamSpec::Enum { values, .. }, ParamValue::Str(s)) => Some(check_enum(values.as_slice(), s.as_str())),
            (ParamSpec::Color { .. }, ParamValue::Str(s)) => Some(validate_color(s.as_str())),
            (ParamSpec::Text { .. }, ParamValue::Str(_)) => Some(Ok(())),
            _ => Some(Err(type_mismatch(self.kind_name(), v))),
        }
    }
}

/// The outcome of a range check of `x` against optional bounds: the message
/// for a value below `min`, else above `max`, else none.
pub open spec fn range_problem(x: i64, min: Option<i64>, max: Option<i64>) -> Option<Seq<char>> {
    let below = match min {
        Some(m) => if x < m { Some("value "@ + signed_decimal(x as int) + " below min "@ + signed_decimal(m as int)) } else { None },
        None => None,
    };
    let above = match max {
        Some(m) => if x > m { Some("value "@ + signed_decimal(x as int) + " above max "@ + signed_decimal(m as int)) } else { None },
        None => None,
    };
    if below is Some { below } else { above }
}

/// The bounds are inclusive: a value passes exactly when it is at least
/// `min` and at most `max` (each when given). A value below `min` is
/// reported against `min`; one within `min` but above `max` against `max`.
pub proof fn lemma_range_bounds_inclusive(x: i64, min: Option<i64>, max: Option<i64>)
    ensures
        range_problem(x, min, max) is None <==> ((min is None || min->0 <= x) && (max is None || x <= max->0)),
        min is Some && x < min->0 ==> range_problem(x, min, max)
            == Some("value "@ + signed_decimal(x as int) + " below min "@ + signed_decimal(min->0 as int)),
        (min is None || min->0 <= x) && max is Some && max->0 < x ==> range_problem(x, min, max)
            == Some("value "@ + signed_decimal(x as int) + " above max "@ + signed_decimal(max->0 as int)),
{
}

/// Check `x` against optional inclusive bounds.
pub fn check_range(x: i64, min: Option<i64>, max: Option<i64>) -> (r: Result<(), String>)
    ensures
        match range_problem(x, min, max) {
            None => r is Ok,
            Some(msg) => r is Err && r->Err_0@ == msg,
        },
        r is Ok <==> ((min is None || min->0 <= x) && (max is None || x <= max->0)),
{
    proof { lemma_range_bounds_inclusive(x, min, max); }
    if let Some(m) = min {
        if x < m {
            let msg = "value ".to_string().concat(i64_text(x).as_str()).concat(" below min ").concat(i64_text(m).as_str());
            return Err(msg);
        }
    }
    if let Some(m) = max {
        if x > m {
            let msg = "value ".to_string().concat(i64_text(x).as_str()).concat(" above max ").concat(i64_text(m).as_str());
            return Err(msg);
        }
    }
    Ok(())
}

/// An ASCII hexadecimal digit.
pub open spec fn is_hex_digit(c: char) -> bool {
    ('0' <= c <= '9') || ('a' <= c <= 'f') || ('A' <= c <= 'F')
}

/// Whether `s` is a colour: `#` then six or eight hex digits (the length
/// counted in UTF-8 bytes, as `str::len` does).
pub open spec fn color_shape_ok(s: Seq<char>) -> bool {
    let n = vstd::utf8::encode_utf8(s).len() as usize;
    s.len() > 0 && s[0] == '#' && (n == 7 || n == 9)
}

/// The problem with a colour string, if any.
pub open spec fn color_problem(s: Seq<char>) -> Option<Seq<char>> {
    if !color_shape_ok(s) {
        Some("invalid color "@ + debug_text(s) + " (expected #rrggbb or #rrggbbaa)"@)
    } else if !(forall|i: int| 1 <= i < s.len() ==> is_hex_digit(#[trigger] s[i])) {
        Some("invalid color "@ + debug_text(s) + " (non-hex digits)"@)
    } else {
        None
    }
}

/// A colour is accepted exactly when it is `#` followed by six or eight
/// hexadecimal digits (`0-9`, `a-f`, `A-F`) (for any string whose length a
/// `usize` holds, as every `&str`'s does).
pub proof fn lemma_color_accepted_iff(s: Seq<char>)
    requires
        s.len() <= usize::MAX,
    ensures
        color_problem(s) is None <==> {
            &&& s.len() == 7 || s.len() == 9
            &&& s[0] == '#'
            &&& forall|i: int| 1 <= i < s.len() ==> {
                ||| '0' <= #[trigger] s[i] <= '9'
                ||| 'a' <= s[i] <= 'f'
                ||| 'A' <= s[i] <= 'F'
            }
        },
{
    let hex = forall|i: int| 1 <= i < s.len() ==> is_hex_digit(#[trigger] s[i]);
    if s.len() > 0 && s[0] == '#' && hex {
        assert(vstd::utf8::is_ascii_chars(s)) by {
            assert forall|i: int| 0 <= i < s.len() implies '\0' <= #[trigger] s[i] <= '\u{7f}' by {
                if i > 0 {
                    assert(is_hex_digit(s[i]));
                }
            }
        }
        vstd::utf8::is_ascii_chars_encode_utf8(s);
    }
}

/// A string of ASCII characters that is not `#` followed by six or eight
/// characters is refused for its shape, whatever the characters are: so
/// `"#fff"` is refused with the shape message.
pub proof fn lemma_color_wrong_shape(s: Seq<char>)
    requires
        s.len() <= usize::MAX,
        forall|i: int| 0 <= i < s.len() ==> '\0' <= #[trigger] s[i] <= '\u{7f}',
        !(s.len() > 0 && s[0] == '#' && (s.len() == 7 || s.len() == 9)),
    ensures
        color_problem(s) == Some("invalid color "@ + debug_text(s) + " (expected #rrggbb or #rrggbbaa)"@),
{
    assert(vstd::utf8::is_ascii_chars(s));
    vstd::utf8::is_ascii_chars_encode_utf8(s);
}

/// Validate a `#rrggbb` / `#rrggbbaa` colour string.
pub fn validate_color(s: &str) -> (r: Result<(), String>)
    ensures
        match color_problem(s@) {
            None => r is Ok,
            Some(msg) => r is Err && r->Err_0@ == msg,
        },
        r is Ok <==> {
            &&& s@.len() == 7 || s@.len() == 9
            &&& s@[0] == '#'
            &&& forall|i: int| 1 <= i < s@.len() ==> {
                ||| '0' <= #[trigger] s@[i] <= '9'
                ||| 'a' <= s@[i] <= 'f'
                ||| 'A' <= s@[i] <= 'F'
            }
        },
{
    let n = s.unicode_len();
    proof { lemma_color_accepted_iff(s@); }
    let starts = n > 0 && s.get_char(0) == '#';
    let bytes = s.len();
    if !starts || (bytes != 7 && bytes != 9) {
        let msg = "invalid color ".to_string().concat(debug_quote(s).as_str()).concat(" (expected #rrggbb or #rrggbbaa)");
        return Err(msg);
    }
    assert(color_shape_ok(s@));
    let mut i: usize = 1;
    while i < n
        invariant
            n == s@.len(),
            1 <= i <= n,
            color_shape_ok(s@),
            forall|k: int| 1 <= k < i ==> is_hex_digit(#[trigger] s@[k]),
        decreases n - i,
    {
        let c = s.get_char(i);
        if !(('0' <= c && c <= '9') || ('a' <= c && c <= 'f') || ('A' <= c && c <= 'F')) {
            let msg = "invalid color ".to_string().concat(debug_quote(s).as_str()).concat(" (non-hex digits)");
            return Err(msg);
        }
        i = i + 1;
    }
    Ok(())
}

/// The elements of a list of strings in their Debug spelling, separated by
/// `", "`.
pub open spec fn debug_items(items: Seq<Seq<char>>) -> Seq<char>
    decreases items.len(),
{
    if items.len() == 0 {
        Seq::empty()
    } else if items.len() == 1 {
        debug_text(items[0])
    } else {
        debug_items(items.drop_last()) + ", "@ + debug_text(items.last())
    }
}

/// `format!("{:?}", items)` for a list of strings: `[`, the items, `]`.
pub open spec fn debug_list(items: Seq<Seq<char>>) -> Seq<char> {
    "["@ + debug_items(items) + "]"@
}

/// The texts of a slice of strings.
pub open spec fn string_texts(items: Seq<String>) -> Seq<Seq<char>> {
    items.map_values(|s: String| s@)
}

/// The Debug spelling of a list of strings.
pub fn debug_list_text(items: &[String]) -> (r: String)
    ensures
        r@ == debug_list(string_texts(items@)),
{
    let ghost texts = string_texts(items@);
    let mut body = String::new();
    let mut i: usize = 0;
    while i < items.len()
        invariant
            i <= items@.len(),
            texts == string_texts(items@),
            body@ == debug_items(texts.subrange(0, i as int)),
        decreases items@.len() - i,
    {
        let q = debug_quote(items[i].as_str());
        let ghost pre = texts.subrange(0, i as int);
        let ghost next = texts.subrange(0, i + 1);
        assert(next.drop_last() =~= pre);
        assert(next.last() == items@[i as int]@);
        if i == 0 {
            body = q;
            assert(pre.len() == 0);
        } else {
            body = body.concat(", ").concat(q.as_str());
        }
        i = i + 1;
    }
    assert(texts.subrange(0, items@.len() as int) =~= texts);
    "[".to_string().concat(body.as_str()).concat("]")
}

/// Whether `s` is one of `values`; if not, why.
pub fn check_enum(values: &[String], s: &str) -> (r: Result<(), String>)
    ensures
        r is Ok <==> string_texts(values@).contains(s@),
        r is Err ==> r->Err_0@ == "value "@ + debug_text(s@) + " not in enum "@ + debug_list(string_texts(values@)),
{
    let ghost texts = string_texts(values@);
    let mut i: usize = 0;
    while i < values.len()
        invariant
            i <= values@.len(),
            texts == string_texts(values@),
            forall|k: int| 0 <= k < i ==> texts[k] != s@,
        decreases values@.len() - i,
    {
        if str_eq(values[i].as_str(), s) {
            assert(texts[i as int] == s@);
            return Ok(());
        }
        i = i + 1;
    }
    let msg = "value ".to_string().concat(debug_quote(s).as_str()).concat(" not in enum ").concat(debug_list_text(values).as_str());
    Err(msg)
}

/// The problem reported when a value's type does not match its declaration.
pub fn type_mismatch(expected: &str, got: &ParamValue) -> (r: String)
    ensures
        r@ == "type mismatch: expected "@ + expected@ + ", got "@ + (match got {
            ParamValue::Bool(_) => "bool"@,
            ParamValue::I32(_) => "int"@,
            ParamValue::F32(_) => "float"@,
            ParamValue::Str(_) => "string"@,
        }),
{
    "type mismatch: expected ".to_string().concat(expected).concat(", got ").concat(value_type_name(got))
}

/// The problem with one declared parameter, given how its default fared
/// against its own declaration and, for an enum, its default and value set:
/// an invalid default first, then an enum default missing from its values.
pub open spec fn default_problem(
    key: Seq<char>,
    default_check: Result<(), Seq<char>>,
    choices: Option<(Seq<char>, Seq<Seq<char>>)>,
) -> Option<Seq<char>> {
    match default_check {
        Err(e) => Some("param "@ + debug_text(key) + ": default value invalid \u{2014} "@ + e),
        Ok(()) => match choices {
            Some((d, vs)) => if vs.contains(d) {
                None
            } else {
                Some("param "@ + debug_text(key) + ": enum default "@ + debug_text(d) + " not in values "@ + debug_list(vs))
            },
            None => None,
        },
    }
}

/// The manifest problem for one declared parameter, if any.
pub fn param_default_problem(
    key: &str,
    default_check: &Result<(), String>,
    choices: Option<(&str, &[String])>,
) -> (r: Option<String>)
    ensures
        (match r {
            Some(m) => Some(m@),
            None => None::<Seq<char>>,
        }) == default_problem(
            key@,
            match default_check {
                Ok(()) => Ok(()),
                Err(e) => Err(e@),
            },
            match choices {
                Some((d, vs)) => Some((d@, string_texts(vs@))),
                None => None,
            },
        ),
{
    match default_check {
        Err(e) => {
            let m = "param ".to_string().concat(debug_quote(key).as_str()).concat(": default value invalid \u{2014} ").concat(e.as_str());
            Some(m)
        },
        Ok(()) => match choices {
            Some((d, vs)) => match check_enum(vs, d) {
                Ok(()) => None,
                Err(_) => {
                    let m = "param ".to_string().concat(debug_quote(key).as_str()).concat(": enum default ").concat(
                        debug_quote(d).as_str(),
                    ).concat(" not in values ").concat(debug_list_text(vs).as_str());
                    Some(m)
                },
            },
            None => None,
        },
    }
}

/// How a declaration's own default fares against it, for every declaration
/// but a float one (a float range is compared in floating point, so its
/// verdict is `float_verdict`).
pub open spec fn own_default_check(spec: ParamSpec, float_verdict: Result<(), Seq<char>>) -> Result<(), Seq<char>> {
    match spec {
        ParamSpec::F32 { .. } => float_verdict,
        ParamSpec::I32 { default, min, max, .. } => match range_problem(
            default as i64,
            match min { Some(m) => Some(m as i64), None => None },
            match max { Some(m) => Some(m as i64), None => None },
        ) {
            None => Ok(()),
            Some(msg) => Err(msg),
        },
        ParamSpec::Bool { .. } => Ok(()),
        ParamSpec::Enum { default, values, .. } => if string_texts(values@).contains(default@) {
            Ok(())
        } else {
            Err("value "@ + debug_text(default@) + " not in enum "@ + debug_list(string_texts(values@)))
        },
        ParamSpec::Color { default, .. } => match color_problem(default@) {
            None => Ok(()),
            Some(msg) => Err(msg),
        },
        ParamSpec::Text { .. } => Ok(()),
    }
}

/// The problem with one declared parameter `key`: its default against its
/// own declaration, then an enum default against its value set.
pub open spec fn declared_param_problem(key: Seq<char>, spec: ParamSpec, float_verdict: Result<(), Seq<char>>) -> Option<Seq<char>> {
    default_problem(
        key,
        own_default_check(spec, float_verdict),
        match spec {
            ParamSpec::Enum { default, values, .. } => Some((default@, string_texts(values@))),
            _ => None,
        },
    )
}

/// The views of a list of float verdicts.
pub open spec fn verdict_views(vs: Seq<Result<(), String>>) -> Seq<Result<(), Seq<char>>> {
    vs.map_values(|v: Result<(), String>| verdict_view(v))
}

/// The float verdict for the `i`-th declaration; a missing one fails (a
/// float range that nobody compared is not taken as met).
pub open spec fn verdict_at(float_verdicts: Seq<Result<(), Seq<char>>>, i: int) -> Result<(), Seq<char>> {
    if 0 <= i < float_verdicts.len() { float_verdicts[i] } else { Err("float range not checked"@) }
}

/// The first problem among declared parameters, in the order given.
pub open spec fn first_param_problem_from(
    params: Seq<(Seq<char>, ParamSpec)>,
    float_verdicts: Seq<Result<(), Seq<char>>>,
    from: int,
) -> Option<Seq<char>>
    decreases params.len() - from,
{
    if from < 0 || from >= params.len() {
        None
    } else {
        match declared_param_problem(params[from].0, params[from].1, verdict_at(float_verdicts, from)) {
            Some(m) => Some(m),
            None => first_param_problem_from(params, float_verdicts, from + 1),
        }
    }
}

/// The view of a float verdict.
pub open spec fn verdict_view(v: Result<(), String>) -> Result<(), Seq<char>> {
    match v {
        Ok(()) => Ok(()),
        Err(e) => Err(e@),
    }
}

/// The problem with one declared parameter `key`, if any; `float_verdict`
/// is how its default fares against a float range (read for a float
/// declaration only).
pub fn declared_problem(key: &str, spec: &ParamSpec, float_verdict: &Result<(), String>) -> (r: Option<String>)
    ensures
        (match r {
            Some(m) => Some(m@),
            None => None::<Seq<char>>,
        }) == declared_param_problem(key@, *spec, verdict_view(*float_verdict)),
{
    let default = spec.default_value();
    let check: Result<(), String> = match spec.validate_non_float(&default) {
        Some(v) => v,
        None => match float_verdict {
            Ok(()) => Ok(()),
            Err(e) => Err(e.clone()),
        },
    };
    assert(verdict_view(check) == own_default_check(*spec, verdict_view(*float_verdict)));
    match spec {
        ParamSpec::Enum { default, values, .. } => param_default_problem(key, &check, Some((default.as_str(), values.as_slice()))),
        _ => param_default_problem(key, &check, None),
    }
}

/// The float verdict at `i`, as [`verdict_at`] reads it.
pub fn float_verdict_at(float_verdicts: &[Result<(), String>], i: usize) -> (r: Result<(), String>)
    ensures
        verdict_view(r) == verdict_at(verdict_views(float_verdicts@), i as int),
{
    if i < float_verdicts.len() {
        match &float_verdicts[i] {
            Ok(()) => Ok(()),
            Err(e) => Err(e.clone()),
        }
    } else {
        Err("float range not checked".to_string())
    }
}

/// The first declared parameter (in the given order, the map's key order)
/// whose default does not satisfy its own declaration, as the manifest's
/// problem message. `float_verdicts[i]` is how the default of a float
/// declaration `params[i]` fares against its range (a missing verdict
/// fails); it is read for float declarations only.
pub fn first_param_problem(params: &[(String, ParamSpec)], float_verdicts: &[Result<(), String>]) -> (r: Option<String>)
    ensures
        (match r {
            Some(m) => Some(m@),
            None => None::<Seq<char>>,
        }) == first_param_problem_from(
            params@.map_values(|p: (String, ParamSpec)| (p.0@, p.1)),
            verdict_views(float_verdicts@),
            0,
        ),
{
    let ghost ps = params@.map_values(|p: (String, ParamSpec)| (p.0@, p.1));
    let ghost fv = verdict_views(float_verdicts@);
    let mut i: usize = 0;
    while i < params.len()
        invariant
            i <= params@.len(),
            ps == params@.map_values(|p: (String, ParamSpec)| (p.0@, p.1)),
            fv == verdict_views(float_verdicts@),
            forall|k: int| 0 <= k < i ==> declared_param_problem(ps[k].0, ps[k].1, verdict_at(fv, k)) is None,
        decreases params@.len() - i,
    {
        let verdict = float_verdict_at(float_verdicts, i);
        let problem = declared_problem(params[i].0.as_str(), &params[i].1, &verdict);
        if problem.is_some() {
            proof { lemma_first_problem_at(ps, fv, i as int); }
            return problem;
        }
        i = i + 1;
    }
    proof { lemma_no_problem(ps, fv, 0); }
    None
}

pub(crate) proof fn lemma_first_problem_at(ps: Seq<(Seq<char>, ParamSpec)>, fv: Seq<Result<(), Seq<char>>>, i: int)
    requires
        0 <= i < ps.len(),
        forall|k: int| 0 <= k < i ==> declared_param_problem(ps[k].0, ps[k].1, verdict_at(fv, k)) is None,
    ensures
        forall|j: int| 0 <= j <= i ==> first_param_problem_from(ps, fv, j) == (match declared_param_problem(ps[i].0, ps[i].1, verdict_at(fv, i)) {
            Some(m) => Some(m),
            None => first_param_problem_from(ps, fv, i + 1),
        }),
    decreases i,
{
    if i > 0 {
        assert forall|j: int| 0 <= j <= i implies first_param_problem_from(ps, fv, j) == (match declared_param_problem(ps[i].0, ps[i].1, verdict_at(fv, i)) {
            Some(m) => Some(m),
            None => first_param_problem_from(ps, fv, i + 1),
        }) by {
            lemma_skip_clean(ps, fv, j, i);
        }
    }
}

proof fn lemma_skip_clean(ps: Seq<(Seq<char>, ParamSpec)>, fv: Seq<Result<(), Seq<char>>>, j: int, i: int)
    requires
        0 <= j <= i < ps.len(),
        forall|k: int| 0 <= k < i ==> declared_param_problem(ps[k].0, ps[k].1, verdict_at(fv, k)) is None,
    ensures
        first_param_problem_from(ps, fv, j) == first_param_problem_from(ps, fv, i),
    decreases i - j,
{
    if j < i {
        lemma_skip_clean(ps, fv, j + 1, i);
    }
}

pub(crate) proof fn lemma_no_problem(ps: Seq<(Seq<char>, ParamSpec)>, fv: Seq<Result<(), Seq<char>>>, j: int)
    requires
        0 <= j <= ps.len(),
        forall|k: int| 0 <= k < ps.len() ==> declared_param_problem(ps[k].0, ps[k].1, verdict_at(fv, k)) is None,
    ensures
        first_param_problem_from(ps, fv, j) is None,
    decreases ps.len() - j,
{
    if j < ps.len() {
        lemma_no_problem(ps, fv, j + 1);
    }
}

} // verus!
