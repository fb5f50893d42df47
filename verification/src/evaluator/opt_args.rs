//! Optional arguments `[key=value, ...]`: collection against a schema of typed keys, value
//! conversion, and the checks for unknown and repeated keys. Handlers declare each key once, as
//! an [`OptKey`] that names the key and its type, and read the value back with the same key.
//!
//! Lengths and integers are read from decimal text by the caller's readers (the conversions
//! go through floating point); everything else is decided here.

use vstd::prelude::*;
use vstd::string::*;
use std::marker::PhantomData;
use crate::evaluator::error::EvalError;
use crate::length::Length;
use crate::strs::{chars_of, str_eq, str_trim, string_push, to_owned_string, trim_chars};
use crate::syntax::green::{GreenNode, tree_wf};
use crate::syntax::span::Span;
use crate::syntax::view::{CommandView, EnvironmentView, key_value_options, parse_key_value_options};

verus! {

/// The type a key expects its value to have.
#[derive(Debug, Clone, Copy, PartialEq, Eq, Structural)]
pub enum OptType {
    /// `true` / `false`, or the bare key (`[draft]` is `draft=true`).
    Bool,
    /// Any text; surrounding double quotes are removed.
    String,
    /// A length: `mm`, `cm`, or no unit (millimetres).
    Length,
    /// A length greater than zero.
    PositiveLength,
    /// An integer of at least 1; fractions are rejected.
    PositiveInt,
    /// An integer of at least 1; fractions are rounded.
    RoundedInt,
    /// A colour written `#rrggbb` (hex digits of either case).
    Color,
}

/// How a type is named to the user.
pub open spec fn opt_type_label(t: OptType) -> Seq<char> {
    match t {
        OptType::Bool => "boolean"@,
        OptType::String => "string"@,
        OptType::Length => "length (mm/cm)"@,
        OptType::PositiveLength => "positive length"@,
        OptType::PositiveInt | OptType::RoundedInt => "positive integer"@,
        OptType::Color => "color (#rrggbb)"@,
    }
}

impl OptType {
    /// How the type is named to the user (see [`opt_type_label`]); the two integer types
    /// share a name, since both ask for an integer of at least 1.
    pub fn label(self) -> (s: &'static str)
        ensures
            s@ == opt_type_label(self),
    {
        match self {
            OptType::Bool => "boolean",
            OptType::String => "string",
            OptType::Length => "length (mm/cm)",
            OptType::PositiveLength => "positive length",
            OptType::PositiveInt | OptType::RoundedInt => "positive integer",
            OptType::Color => "color (#rrggbb)",
        }
    }
}

/// A colour given by its red, green and blue components.
#[derive(Debug, Clone, Copy, PartialEq, Eq, Structural)]
pub struct Color {
    /// Red.
    pub red: u8,
    /// Green.
    pub green: u8,
    /// Blue.
    pub blue: u8,
}

/// A converted option value.
#[derive(Debug, Clone, PartialEq, Eq)]
pub enum OptValue {
    /// A truth value.
    Bool(bool),
    /// Text.
    String(String),
    /// A length (plain and positive lengths alike).
    Length(Length),
    /// An integer of at least 1 (both integer types).
    Integer(u32),
    /// A colour.
    Color(Color),
}

/// How an integer reader treats a fraction.
#[derive(Debug, Clone, Copy, PartialEq, Eq, Structural)]
pub enum FractionPolicy {
    /// A fraction is rejected.
    Reject,
    /// A fraction is rounded.
    Round,
}

/// The declaration of a key in a schema: its name and type, with the type of value it gives.
#[derive(Debug)]
pub struct OptKey<T> {
    name: &'static str,
    ty: OptType,
    marker: PhantomData<T>,
}

impl<T> Clone for OptKey<T> {
    fn clone(&self) -> (r: Self)
        ensures
            r == *self,
    {
        OptKey { name: self.name, ty: self.ty, marker: PhantomData }
    }
}

impl<T> Copy for OptKey<T> {}

/// An entry of a schema: a key's name and type.
#[derive(Debug, Clone, Copy, PartialEq, Eq)]
pub struct OptDecl {
    name: &'static str,
    ty: OptType,
}

impl OptDecl {
    /// The key's name.
    pub closed spec fn spec_name(self) -> Seq<char> {
        self.name@
    }

    /// The key's type.
    pub closed spec fn spec_ty(self) -> OptType {
        self.ty
    }

    /// The key's name.
    pub fn name(&self) -> (r: &'static str)
        ensures
            r@ == self.spec_name(),
    {
        self.name
    }

    /// The key's type.
    pub fn ty(&self) -> (r: OptType)
        ensures
            r == self.spec_ty(),
    {
        self.ty
    }
}

impl<T> OptKey<T> {
    /// The key's name.
    pub closed spec fn spec_name(self) -> Seq<char> {
        self.name@
    }

    /// The key's type.
    pub closed spec fn spec_ty(self) -> OptType {
        self.ty
    }

    /// The schema entry of the key.
    pub fn decl(self) -> (d: OptDecl)
        ensures
            d.spec_name() == self.spec_name(),
            d.spec_ty() == self.spec_ty(),
    {
        OptDecl { name: self.name, ty: self.ty }
    }
}

/// A truth-valued key (`[draft]` is short for `draft=true`).
pub fn boolean(name: &'static str) -> (k: OptKey<bool>)
    ensures
        k.spec_name() == name@,
        k.spec_ty() == OptType::Bool,
{
    OptKey { name, ty: OptType::Bool, marker: PhantomData }
}

/// A text key.
pub fn string(name: &'static str) -> (k: OptKey<String>)
    ensures
        k.spec_name() == name@,
        k.spec_ty() == OptType::String,
{
    OptKey { name, ty: OptType::String, marker: PhantomData }
}

/// A length key with no range restriction.
pub fn length(name: &'static str) -> (k: OptKey<Length>)
    ensures
        k.spec_name() == name@,
        k.spec_ty() == OptType::Length,
{
    OptKey { name, ty: OptType::Length, marker: PhantomData }
}

/// A key for a length greater than zero.
pub fn positive_length(name: &'static str) -> (k: OptKey<Length>)
    ensures
        k.spec_name() == name@,
        k.spec_ty() == OptType::PositiveLength,
{
    OptKey { name, ty: OptType::PositiveLength, marker: PhantomData }
}

/// A key for an integer of at least 1 that rejects fractions.
pub fn positive_int(name: &'static str) -> (k: OptKey<u32>)
    ensures
        k.spec_name() == name@,
        k.spec_ty() == OptType::PositiveInt,
{
    OptKey { name, ty: OptType::PositiveInt, marker: PhantomData }
}

/// A key for an integer of at least 1 that rounds fractions.
pub fn rounded_int(name: &'static str) -> (k: OptKey<u32>)
    ensures
        k.spec_name() == name@,
        k.spec_ty() == OptType::RoundedInt,
{
    OptKey { name, ty: OptType::RoundedInt, marker: PhantomData }
}

/// A colour key.
pub fn color(name: &'static str) -> (k: OptKey<Color>)
    ensures
        k.spec_name() == name@,
        k.spec_ty() == OptType::Color,
{
    OptKey { name, ty: OptType::Color, marker: PhantomData }
}

/// The values a key of type `Self` reads out of a converted value.
pub trait FromOptValue: Sized {
    /// The value of type `Self` that `v` holds, if it holds one.
    spec fn spec_from_value(v: OptValue) -> Option<Self>;

    /// The value of type `Self` that `v` holds, if it holds one.
    fn from_opt_value(v: &OptValue) -> (r: Option<Self>)
        ensures
            r == Self::spec_from_value(*v),
    ;
}

impl FromOptValue for bool {
    open spec fn spec_from_value(v: OptValue) -> Option<bool> {
        match v {
            OptValue::Bool(b) => Some(b),
            _ => None,
        }
    }

    fn from_opt_value(v: &OptValue) -> (r: Option<bool>) {
        match v {
            OptValue::Bool(b) => Some(*b),
            _ => None,
        }
    }
}

impl FromOptValue for String {
    open spec fn spec_from_value(v: OptValue) -> Option<String> {
        match v {
            OptValue::String(s) => Some(s),
            _ => None,
        }
    }

    fn from_opt_value(v: &OptValue) -> (r: Option<String>) {
        match v {
            OptValue::String(s) => Some(s.clone()),
            _ => None,
        }
    }
}

impl FromOptValue for Length {
    open spec fn spec_from_value(v: OptValue) -> Option<Length> {
        match v {
            OptValue::Length(l) => Some(l),
            _ => None,
        }
    }

    fn from_opt_value(v: &OptValue) -> (r: Option<Length>) {
        match v {
            OptValue::Length(l) => Some(*l),
            _ => None,
        }
    }
}

impl FromOptValue for u32 {
    open spec fn spec_from_value(v: OptValue) -> Option<u32> {
        match v {
            OptValue::Integer(n) => Some(n),
            _ => None,
        }
    }

    fn from_opt_value(v: &OptValue) -> (r: Option<u32>) {
        match v {
            OptValue::Integer(n) => Some(*n),
            _ => None,
        }
    }
}

impl FromOptValue for Color {
    open spec fn spec_from_value(v: OptValue) -> Option<Color> {
        match v {
            OptValue::Color(c) => Some(c),
            _ => None,
        }
    }

    fn from_opt_value(v: &OptValue) -> (r: Option<Color>) {
        match v {
            OptValue::Color(c) => Some(*c),
            _ => None,
        }
    }
}

/// The value stored under the first occurrence of `key`, if any.
pub open spec fn lookup(keys: Seq<Seq<char>>, values: Seq<OptValue>, key: Seq<char>) -> Option<OptValue>
    decreases keys.len(),
{
    if keys.len() == 0 || values.len() == 0 {
        None
    } else if keys[0] == key {
        Some(values[0])
    } else {
        lookup(keys.drop_first(), values.drop_first(), key)
    }
}

/// Collected and converted optional arguments, in source order.
#[derive(Debug)]
pub struct OptArgs {
    pairs: Vec<(String, OptValue)>,
}

impl OptArgs {
    /// The keys, in source order.
    pub closed spec fn spec_keys(&self) -> Seq<Seq<char>> {
        self.pairs@.map_values(|p: (String, OptValue)| p.0@)
    }

    /// The converted values, in source order.
    pub closed spec fn spec_values(&self) -> Seq<OptValue> {
        self.pairs@.map_values(|p: (String, OptValue)| p.1)
    }

    /// The value of `key` when the source gives it; a value of another type than the key
    /// declares is never returned.
    pub fn get<T: FromOptValue>(&self, key: OptKey<T>) -> (r: Option<T>)
        ensures
            r == match lookup(self.spec_keys(), self.spec_values(), key.spec_name()) {
                Some(v) => T::spec_from_value(v),
                None => None,
            },
    {
        let ghost keys = self.spec_keys();
        let ghost values = self.spec_values();
        proof {
            assert(keys.skip(0) =~= keys);
            assert(values.skip(0) =~= values);
        }
        let mut i: usize = 0;
        while i < self.pairs.len()
            invariant
                0 <= i <= self.pairs@.len(),
                keys == self.spec_keys(),
                values == self.spec_values(),
                keys.len() == values.len() == self.pairs@.len(),
                lookup(keys, values, key.spec_name()) == lookup(
                    keys.skip(i as int),
                    values.skip(i as int),
                    key.spec_name(),
                ),
            decreases self.pairs@.len() - i,
        {
            proof {
                assert(keys.skip(i as int)[0] == self.pairs@[i as int].0@);
                assert(values.skip(i as int)[0] == self.pairs@[i as int].1);
                assert(keys.skip(i as int).drop_first() =~= keys.skip(i + 1));
                assert(values.skip(i as int).drop_first() =~= values.skip(i + 1));
            }
            if str_eq(self.pairs[i].0.as_str(), key.name) {
                return T::from_opt_value(&self.pairs[i].1);
            }
            i = i + 1;
        }
        proof {
            assert(keys.skip(i as int).len() == 0);
        }
        None
    }
}

/// The type declared for `key` by the first entry of `schema` with that name.
pub open spec fn decl_type(schema: Seq<OptDecl>, key: Seq<char>) -> Option<OptType>
    decreases schema.len(),
{
    if schema.len() == 0 {
        None
    } else if schema[0].spec_name() == key {
        Some(schema[0].spec_ty())
    } else {
        decl_type(schema.drop_first(), key)
    }
}

/// The type `schema` declares for `key` (see [`decl_type`]).
fn find_decl_type(schema: &[OptDecl], key: &str) -> (r: Option<OptType>)
    ensures
        r == decl_type(schema@, key@),
{
    assert(schema@.skip(0) =~= schema@);
    let mut i: usize = 0;
    while i < schema.len()
        invariant
            0 <= i <= schema@.len(),
            decl_type(schema@, key@) == decl_type(schema@.skip(i as int), key@),
        decreases schema@.len() - i,
    {
        proof {
            assert(schema@.skip(i as int)[0] == schema@[i as int]);
            assert(schema@.skip(i as int).drop_first() =~= schema@.skip(i + 1));
        }
        if str_eq(schema[i].name, key) {
            return Some(schema[i].ty);
        }
        i = i + 1;
    }
    None
}

/// The text of one schema entry: `name: type`.
pub open spec fn decl_entry_text(d: OptDecl) -> Seq<char> {
    d.spec_name() + ": "@ + opt_type_label(d.spec_ty())
}

/// The entries of a non-empty schema, separated by `, `.
pub open spec fn join_decls(schema: Seq<OptDecl>) -> Seq<char>
    decreases schema.len(),
{
    if schema.len() <= 1 {
        if schema.len() == 1 { decl_entry_text(schema[0]) } else { Seq::empty() }
    } else {
        join_decls(schema.drop_last()) + ", "@ + decl_entry_text(schema.last())
    }
}

/// What a diagnostic says of the keys a command or environment accepts.
pub open spec fn spec_format_expected(schema: Seq<OptDecl>) -> Seq<char> {
    if schema.len() == 0 {
        "（このコマンド/環境は任意引数を受け付けません）"@
    } else {
        join_decls(schema)
    }
}

/// The accepted keys as a diagnostic shows them: `name: type` entries separated by `, `, or a
/// note that no optional argument is accepted (see [`spec_format_expected`]).
pub fn format_expected(schema: &[OptDecl]) -> (r: String)
    ensures
        r@ == spec_format_expected(schema@),
{
    if schema.len() == 0 {
        return to_owned_string("（このコマンド/環境は任意引数を受け付けません）");
    }
    let mut out = String::new();
    let mut i: usize = 0;
    while i < schema.len()
        invariant
            0 <= i <= schema@.len(),
            schema@.len() > 0,
            out@ == join_decls(schema@.subrange(0, i as int)),
        decreases schema@.len() - i,
    {
        let d = schema[i];
        proof {
            reveal_strlit(", ");
            reveal_strlit(": ");
            assert(schema@.subrange(0, i + 1).drop_last() =~= schema@.subrange(0, i as int));
            assert(schema@.subrange(0, i + 1).last() == d);
        }
        if i > 0 {
            out.append(", ");
        }
        out.append(d.name);
        out.append(": ");
        out.append(d.ty.label());
        proof {
            if i == 0 {
                assert(out@ =~= decl_entry_text(d));
            } else {
                assert(out@ =~= join_decls(schema@.subrange(0, i as int)) + ", "@ + decl_entry_text(d));
            }
        }
        i = i + 1;
    }
    proof {
        assert(schema@.subrange(0, i as int) =~= schema@);
    }
    out
}

/// The ASCII lower-case code of `c` (other characters keep their code).
pub open spec fn ascii_lower_code(c: char) -> int {
    if 'A' <= c && c <= 'Z' {
        c as int + 32
    } else {
        c as int
    }
}

/// `a` and `b` are equal up to ASCII case.
pub open spec fn eq_ignore_ascii_case(a: Seq<char>, b: Seq<char>) -> bool {
    a.len() == b.len() && forall|i: int| 0 <= i < a.len() ==> ascii_lower_code(#[trigger] a[i]) == ascii_lower_code(b[i])
}

/// The ASCII lower-case code of `c`.
fn lower_code(c: char) -> (r: u32)
    ensures
        r == ascii_lower_code(c),
{
    if 'A' <= c && c <= 'Z' {
        (c as u32) + 32
    } else {
        c as u32
    }
}

/// Whether `a` and `b` are equal up to ASCII case.
fn str_eq_ignore_ascii_case(a: &str, b: &str) -> (r: bool)
    ensures
        r == eq_ignore_ascii_case(a@, b@),
{
    let x = chars_of(a);
    let y = chars_of(b);
    if x.len() != y.len() {
        return false;
    }
    let mut i: usize = 0;
    while i < x.len()
        invariant
            x@ == a@,
            y@ == b@,
            x@.len() == y@.len(),
            0 <= i <= x@.len(),
            forall|j: int| 0 <= j < i ==> ascii_lower_code(#[trigger] x@[j]) == ascii_lower_code(y@[j]),
        decreases x@.len() - i,
    {
        if lower_code(x[i]) != lower_code(y[i]) {
            return false;
        }
        i = i + 1;
    }
    true
}

/// `t` without one pair of surrounding double quotes, when it has them.
pub open spec fn unquote(t: Seq<char>) -> Seq<char> {
    if t.len() >= 2 && t[0] == '"' && t.last() == '"' {
        t.subrange(1, t.len() - 1)
    } else {
        t
    }
}

/// The characters `cs[start..end]` as a string.
fn string_of_chars(cs: &Vec<char>, start: usize, end: usize) -> (r: String)
    requires
        start <= end <= cs@.len(),
    ensures
        r@ == cs@.subrange(start as int, end as int),
{
    let mut out = String::new();
    let mut i: usize = start;
    while i < end
        invariant
            start <= i <= end <= cs@.len(),
            out@ == cs@.subrange(start as int, i as int),
        decreases end - i,
    {
        string_push(&mut out, cs[i]);
        proof {
            assert(cs@.subrange(start as int, i + 1) =~= cs@.subrange(start as int, i as int).push(cs@[i as int]));
        }
        i = i + 1;
    }
    out
}

/// The value of a hex digit.
pub open spec fn hex_value(c: char) -> Option<int> {
    if '0' <= c && c <= '9' {
        Some(c as int - '0' as int)
    } else if 'a' <= c && c <= 'f' {
        Some(c as int - 'a' as int + 10)
    } else if 'A' <= c && c <= 'F' {
        Some(c as int - 'A' as int + 10)
    } else {
        None
    }
}

/// The value of a hex digit.
fn hex_digit(c: char) -> (r: Option<u8>)
    ensures
        match hex_value(c) {
            Some(v) => r == Some(v as u8),
            None => r is None,
        },
{
    if '0' <= c && c <= '9' {
        Some(((c as u32) - 48) as u8)
    } else if 'a' <= c && c <= 'f' {
        Some(((c as u32) - 87) as u8)
    } else if 'A' <= c && c <= 'F' {
        Some(((c as u32) - 55) as u8)
    } else {
        None
    }
}

/// The colour `t` names: `#` and six hex digits, two per component.
pub open spec fn spec_color(t: Seq<char>) -> Option<Color> {
    if t.len() == 7 && t[0] == '#' && (forall|i: int| 1 <= i < 7 ==> (#[trigger] hex_value(t[i])) is Some) {
        Some(Color {
            red: (hex_value(t[1]).unwrap() * 16 + hex_value(t[2]).unwrap()) as u8,
            green: (hex_value(t[3]).unwrap() * 16 + hex_value(t[4]).unwrap()) as u8,
            blue: (hex_value(t[5]).unwrap() * 16 + hex_value(t[6]).unwrap()) as u8,
        })
    } else {
        None
    }
}

/// One component from two hex digits.
fn hex_pair(hi: char, lo: char) -> (r: Option<u8>)
    ensures
        match (hex_value(hi), hex_value(lo)) {
            (Some(h), Some(l)) => r == Some((h * 16 + l) as u8),
            _ => r is None,
        },
{
    match (hex_digit(hi), hex_digit(lo)) {
        (Some(h), Some(l)) => {
            assert(h < 16 && l < 16);
            Some(h * 16 + l)
        },
        _ => None,
    }
}

/// The colour the text `t` names (see [`spec_color`]).
fn parse_color(t: &str) -> (r: Option<Color>)
    ensures
        r == spec_color(t@),
{
    let cs = chars_of(t);
    if cs.len() != 7 || cs[0] != '#' {
        return None;
    }
    let red = hex_pair(cs[1], cs[2]);
    let green = hex_pair(cs[3], cs[4]);
    let blue = hex_pair(cs[5], cs[6]);
    match (red, green, blue) {
        (Some(r), Some(g), Some(b)) => {
            proof {
                assert forall|i: int| 1 <= i < 7 implies (#[trigger] hex_value(t@[i])) is Some by {
                    if i == 1 || i == 2 {
                    } else if i == 3 || i == 4 {
                    } else {
                    }
                }
            }
            Some(Color { red: r, green: g, blue: b })
        },
        _ => {
            proof {
                if spec_color(t@) is Some {
                    assert(hex_value(t@[1]) is Some && hex_value(t@[2]) is Some);
                    assert(hex_value(t@[3]) is Some && hex_value(t@[4]) is Some);
                    assert(hex_value(t@[5]) is Some && hex_value(t@[6]) is Some);
                }
            }
            None
        },
    }
}

/// What a value of type `ty` written `raw` converts to, or `None` when it does not convert.
/// Lengths and integers are what the readers give back (the integer must be at least 1 and a
/// positive length greater than zero); the other types are decided by their text.
pub open spec fn value_outcome<
    L: Fn(&str) -> Option<Length>,
    I: Fn(&str, FractionPolicy) -> Option<u32>,
>(raw: &str, ty: OptType, read_length: L, read_int: I, outcome: Option<OptValue>) -> bool {
    let t = trim_chars(raw@);
    match ty {
        OptType::Bool => outcome == if eq_ignore_ascii_case(t, "true"@) {
            Some(OptValue::Bool(true))
        } else if eq_ignore_ascii_case(t, "false"@) {
            Some(OptValue::Bool(false))
        } else {
            None
        },
        OptType::String => outcome matches Some(OptValue::String(s)) && s@ == unquote(t),
        OptType::Length => match outcome {
            Some(v) => v matches OptValue::Length(l) && read_length.ensures((raw,), Some(l)),
            None => read_length.ensures((raw,), None),
        },
        OptType::PositiveLength => match outcome {
            Some(v) => v matches OptValue::Length(l) && l.spec_sp() > 0 && read_length.ensures((raw,), Some(l)),
            None => read_length.ensures((raw,), None) || exists|l: Length|
                l.spec_sp() <= 0 && #[trigger] read_length.ensures((raw,), Some(l)),
        },
        OptType::PositiveInt => match outcome {
            Some(v) => v matches OptValue::Integer(n) && n >= 1 && read_int.ensures((raw, FractionPolicy::Reject), Some(n)),
            None => read_int.ensures((raw, FractionPolicy::Reject), None) || read_int.ensures(
                (raw, FractionPolicy::Reject),
                Some(0u32),
            ),
        },
        OptType::RoundedInt => match outcome {
            Some(v) => v matches OptValue::Integer(n) && n >= 1 && read_int.ensures((raw, FractionPolicy::Round), Some(n)),
            None => read_int.ensures((raw, FractionPolicy::Round), None) || read_int.ensures(
                (raw, FractionPolicy::Round),
                Some(0u32),
            ),
        },
        OptType::Color => outcome == match spec_color(t) {
            Some(c) => Some(OptValue::Color(c)),
            None => None,
        },
    }
}

/// `e` reports that the value of `key` of `name` does not have the type `ty`.
pub open spec fn is_invalid_value(e: EvalError, name: Seq<char>, key: Seq<char>, ty: OptType, span: Span) -> bool {
    e matches EvalError::InvalidOptArgValue { name: n, key: k, expected: x, span: s }
        && n@ == name && k@ == key && x@ == opt_type_label(ty) && s == span
}

/// The error for a value of `key` of `name` that does not have the type `ty`.
fn invalid(name: &str, key: &str, ty: OptType, span: Span) -> (e: EvalError)
    ensures
        is_invalid_value(e, name@, key@, ty, span),
{
    EvalError::InvalidOptArgValue {
        name: to_owned_string(name),
        key: to_owned_string(key),
        expected: to_owned_string(ty.label()),
        span,
    }
}

/// Converts the text `raw` of `key` to a value of the declared type `expected` (see
/// [`value_outcome`]), or reports it as invalid.
pub fn parse_value<L: Fn(&str) -> Option<Length>, I: Fn(&str, FractionPolicy) -> Option<u32>>(
    key: &str,
    raw: &str,
    expected: OptType,
    name: &str,
    span: Span,
    read_length: &L,
    read_int: &I,
) -> (r: Result<OptValue, EvalError>)
    requires
        forall|s: &str| read_length.requires((s,)),
        forall|s: &str, p: FractionPolicy| read_int.requires((s, p)),
    ensures
        match r {
            Ok(v) => value_outcome(raw, expected, *read_length, *read_int, Some(v)),
            Err(e) => value_outcome(raw, expected, *read_length, *read_int, None)
                && is_invalid_value(e, name@, key@, expected, span),
        },
{
    match expected {
        OptType::Bool => {
            let trimmed = str_trim(raw);
            proof {
                reveal_strlit("true");
                reveal_strlit("false");
            }
            if str_eq_ignore_ascii_case(trimmed, "true") {
                return Ok(OptValue::Bool(true));
            }
            if str_eq_ignore_ascii_case(trimmed, "false") {
                return Ok(OptValue::Bool(false));
            }
            Err(invalid(name, key, expected, span))
        },
        OptType::String => {
            let trimmed = str_trim(raw);
            let cs = chars_of(trimmed);
            let n = cs.len();
            if n >= 2 && cs[0] == '"' && cs[n - 1] == '"' {
                Ok(OptValue::String(string_of_chars(&cs, 1, n - 1)))
            } else {
                proof {
                    assert(cs@.subrange(0, n as int) =~= cs@);
                }
                Ok(OptValue::String(string_of_chars(&cs, 0, n)))
            }
        },
        OptType::Length => match read_length(raw) {
            Some(l) => Ok(OptValue::Length(l)),
            None => Err(invalid(name, key, expected, span)),
        },
        OptType::PositiveLength => match read_length(raw) {
            Some(l) => {
                if l.is_positive() {
                    Ok(OptValue::Length(l))
                } else {
                    Err(invalid(name, key, expected, span))
                }
            },
            None => Err(invalid(name, key, expected, span)),
        },
        OptType::PositiveInt => match read_int(raw, FractionPolicy::Reject) {
            Some(n) => {
                if n >= 1 {
                    Ok(OptValue::Integer(n))
                } else {
                    Err(invalid(name, key, expected, span))
                }
            },
            None => Err(invalid(name, key, expected, span)),
        },
        OptType::RoundedInt => match read_int(raw, FractionPolicy::Round) {
            Some(n) => {
                if n >= 1 {
                    Ok(OptValue::Integer(n))
                } else {
                    Err(invalid(name, key, expected, span))
                }
            },
            None => Err(invalid(name, key, expected, span)),
        },
        OptType::Color => match parse_color(str_trim(raw)) {
            Some(c) => Ok(OptValue::Color(c)),
            None => Err(invalid(name, key, expected, span)),
        },
    }
}

/// `raw` converts to `outcome` as a value of type `ty` (see [`value_outcome`]).
pub open spec fn text_outcome<L: Fn(&str) -> Option<Length>, I: Fn(&str, FractionPolicy) -> Option<u32>>(
    raw: Seq<char>,
    ty: OptType,
    read_length: L,
    read_int: I,
    outcome: Option<OptValue>,
) -> bool {
    exists|s: &str| s@ == raw && #[trigger] value_outcome(s, ty, read_length, read_int, outcome)
}

/// The `j`-th entry of `pairs` is accepted: its key is declared, not given earlier, and its
/// value converts.
pub open spec fn entry_accepted<L: Fn(&str) -> Option<Length>, I: Fn(&str, FractionPolicy) -> Option<u32>>(
    pairs: Seq<(Seq<char>, Seq<char>)>,
    j: int,
    schema: Seq<OptDecl>,
    read_length: L,
    read_int: I,
) -> bool {
    &&& decl_type(schema, pairs[j].0) is Some
    &&& forall|m: int| 0 <= m < j ==> pairs[m].0 != pairs[j].0
    &&& exists|v: OptValue| text_outcome(pairs[j].1, decl_type(schema, pairs[j].0)->Some_0, read_length, read_int, Some(v))
}

/// `e` is the error for the `i`-th entry of `pairs`: an undeclared key (listing the accepted
/// keys), a key given earlier, or a value that does not convert.
pub open spec fn entry_failure<L: Fn(&str) -> Option<Length>, I: Fn(&str, FractionPolicy) -> Option<u32>>(
    pairs: Seq<(Seq<char>, Seq<char>)>,
    i: int,
    schema: Seq<OptDecl>,
    name: Seq<char>,
    span: Span,
    read_length: L,
    read_int: I,
    e: EvalError,
) -> bool {
    let key = pairs[i].0;
    match decl_type(schema, key) {
        None => e matches EvalError::UnknownOptArgKey { name: n, key: k, expected_keys: x, span: s }
            && n@ == name && k@ == key && x@ == spec_format_expected(schema) && s == span,
        Some(ty) => if exists|m: int| 0 <= m < i && pairs[m].0 == key {
            e matches EvalError::DuplicateOptArgKey { name: n, key: k, span: s } && n@ == name && k@ == key
                && s == span
        } else {
            text_outcome(pairs[i].1, ty, read_length, read_int, None) && is_invalid_value(e, name, key, ty, span)
        },
    }
}

/// The outcome of collecting the optional argument `opt_arg` of `name` against `schema`: no
/// argument gives no values; otherwise every entry accepted gives its key and converted value
/// in source order, and the first entry that is not accepted gives its error.
pub open spec fn collected<L: Fn(&str) -> Option<Length>, I: Fn(&str, FractionPolicy) -> Option<u32>>(
    src: Seq<u8>,
    name: Seq<char>,
    opt_arg: Option<GreenNode>,
    schema: Seq<OptDecl>,
    read_length: L,
    read_int: I,
    r: Result<OptArgs, EvalError>,
) -> bool {
    match opt_arg {
        None => r matches Ok(a) && a.spec_keys().len() == 0 && a.spec_values().len() == 0,
        Some(opt) => {
            let pairs = key_value_options(src, opt);
            match r {
                Ok(a) => {
                    &&& a.spec_keys() == pairs.map_values(|p: (Seq<char>, Seq<char>)| p.0)
                    &&& a.spec_values().len() == pairs.len()
                    &&& forall|i: int| 0 <= i < pairs.len() ==> #[trigger] entry_accepted(
                        pairs, i, schema, read_length, read_int)
                        && text_outcome(pairs[i].1, decl_type(schema, pairs[i].0)->Some_0, read_length,
                        read_int, Some(a.spec_values()[i]))
                },
                Err(e) => exists|i: int| 0 <= i < pairs.len()
                    && (forall|j: int| 0 <= j < i ==> #[trigger] entry_accepted(pairs, j, schema, read_length, read_int))
                    && #[trigger] entry_failure(pairs, i, schema, name, opt.span, read_length, read_int, e),
            }
        },
    }
}

/// Whether `key` is among the keys of `out`.
fn contains_key(out: &Vec<(String, OptValue)>, key: &str) -> (b: bool)
    ensures
        b == exists|m: int| 0 <= m < out@.len() && (#[trigger] out@[m]).0@ == key@,
{
    let mut i: usize = 0;
    while i < out.len()
        invariant
            0 <= i <= out@.len(),
            forall|m: int| 0 <= m < i ==> (#[trigger] out@[m]).0@ != key@,
        decreases out@.len() - i,
    {
        if str_eq(out[i].0.as_str(), key) {
            return true;
        }
        i = i + 1;
    }
    false
}

/// Collects the optional argument `opt_arg` of the command or environment `name` against
/// `schema` (see [`collected`]).
pub fn collect_opt_args<L: Fn(&str) -> Option<Length>, I: Fn(&str, FractionPolicy) -> Option<u32>>(
    source: &str,
    name: &str,
    opt_arg: Option<&GreenNode>,
    schema: &[OptDecl],
    read_length: &L,
    read_int: &I,
) -> (r: Result<OptArgs, EvalError>)
    requires
        opt_arg matches Some(o) ==> tree_wf(*o, source.spec_bytes()),
        forall|s: &str| read_length.requires((s,)),
        forall|s: &str, p: FractionPolicy| read_int.requires((s, p)),
    ensures
        collected(source.spec_bytes(), name@, match opt_arg {
            Some(o) => Some(*o),
            None => None,
        }, schema@, *read_length, *read_int, r),
{
    let opt = match opt_arg {
        Some(o) => o,
        None => {
            let a = OptArgs { pairs: Vec::new() };
            proof {
                assert(a.spec_keys().len() == 0);
                assert(a.spec_values().len() == 0);
            }
            return Ok(a);
        },
    };
    let ghost ps = key_value_options(source.spec_bytes(), *opt);
    let raw_pairs = parse_key_value_options(source, opt);
    let mut out: Vec<(String, OptValue)> = Vec::new();
    let mut i: usize = 0;
    while i < raw_pairs.len()
        invariant
            0 <= i <= raw_pairs@.len(),
            opt_arg == Some(opt),
            ps == key_value_options(source.spec_bytes(), *opt),
            raw_pairs@.len() == ps.len(),
            forall|k: int| 0 <= k < raw_pairs@.len() ==> ((#[trigger] raw_pairs@[k]).0@, raw_pairs@[k].1@) == ps[k],
            forall|s: &str| read_length.requires((s,)),
            forall|s: &str, p: FractionPolicy| read_int.requires((s, p)),
            out@.len() == i,
            forall|j: int| 0 <= j < i ==> (#[trigger] out@[j]).0@ == ps[j].0,
            forall|j: int| 0 <= j < i ==> #[trigger] entry_accepted(ps, j, schema@, *read_length, *read_int),
            forall|j: int| 0 <= j < i ==> text_outcome(ps[j].1, decl_type(schema@, ps[j].0)->Some_0,
                *read_length, *read_int, Some((#[trigger] out@[j]).1)),
        decreases raw_pairs@.len() - i,
    {
        let key = raw_pairs[i].0.as_str();
        let value = raw_pairs[i].1.as_str();
        proof {
            assert(ps[i as int] == (key@, value@));
        }
        let expected = match find_decl_type(schema, key) {
            Some(t) => t,
            None => {
                let e = EvalError::UnknownOptArgKey {
                    name: to_owned_string(name),
                    key: to_owned_string(key),
                    expected_keys: format_expected(schema),
                    span: opt.span,
                };
                proof {
                    assert(entry_failure(ps, i as int, schema@, name@, opt.span, *read_length, *read_int, e));
                }
                return Err(e);
            },
        };
        if contains_key(&out, key) {
            let e = EvalError::DuplicateOptArgKey {
                name: to_owned_string(name),
                key: to_owned_string(key),
                span: opt.span,
            };
            proof {
                let m = choose|m: int| 0 <= m < out@.len() && (#[trigger] out@[m]).0@ == key@;
                assert(ps[m].0 == key@);
                assert(entry_failure(ps, i as int, schema@, name@, opt.span, *read_length, *read_int, e));
            }
            return Err(e);
        }
        proof {
            assert forall|m: int| 0 <= m < i implies ps[m].0 != ps[i as int].0 by {
                assert(out@[m].0@ == ps[m].0);
            }
        }
        match parse_value(key, value, expected, name, opt.span, read_length, read_int) {
            Ok(v) => {
                proof {
                    assert(text_outcome(ps[i as int].1, expected, *read_length, *read_int, Some(v)));
                    assert(entry_accepted(ps, i as int, schema@, *read_length, *read_int));
                }
                out.push((to_owned_string(key), v));
            },
            Err(e) => {
                proof {
                    assert(text_outcome(ps[i as int].1, expected, *read_length, *read_int, None));
                    assert(!exists|m: int| 0 <= m < i && ps[m].0 == ps[i as int].0);
                    assert(entry_failure(ps, i as int, schema@, name@, opt.span, *read_length, *read_int, e));
                }
                return Err(e);
            },
        }
        i = i + 1;
    }
    let a = OptArgs { pairs: out };
    proof {
        assert(a.spec_keys() =~= ps.map_values(|p: (Seq<char>, Seq<char>)| p.0));
        assert forall|j: int| 0 <= j < ps.len() implies a.spec_values()[j] == out@[j].1 by {}
    }
    Ok(a)
}

/// Collects the optional argument of a command (see [`collected`]).
pub fn collect_command_opt_args<L: Fn(&str) -> Option<Length>, I: Fn(&str, FractionPolicy) -> Option<u32>>(
    view: &CommandView,
    schema: &[OptDecl],
    read_length: &L,
    read_int: &I,
) -> (r: Result<OptArgs, EvalError>)
    requires
        view.wf(),
        forall|s: &str| read_length.requires((s,)),
        forall|s: &str, p: FractionPolicy| read_int.requires((s, p)),
    ensures
        collected(view.spec_source().spec_bytes(), view.spec_name(), view.spec_opt_arg(), schema@,
            *read_length, *read_int, r),
{
    let opt = view.opt_arg();
    collect_opt_args(view.source(), view.name(), opt, schema, read_length, read_int)
}

/// Collects the optional argument of an environment (see [`collected`]).
pub fn collect_environment_opt_args<L: Fn(&str) -> Option<Length>, I: Fn(&str, FractionPolicy) -> Option<u32>>(
    view: &EnvironmentView,
    schema: &[OptDecl],
    read_length: &L,
    read_int: &I,
) -> (r: Result<OptArgs, EvalError>)
    requires
        view.wf(),
        forall|s: &str| read_length.requires((s,)),
        forall|s: &str, p: FractionPolicy| read_int.requires((s, p)),
    ensures
        collected(view.spec_source().spec_bytes(), view.spec_name(), view.spec_opt_arg(), schema@,
            *read_length, *read_int, r),
{
    let opt = view.opt_arg();
    collect_opt_args(view.source(), view.name(), opt, schema, read_length, read_int)
}

/// `e` refuses the first key of the optional argument of the command `view`, which takes
/// none: the key, the command's name and the argument's span, with no key expected.
pub open spec fn is_first_key_refused(view: CommandView, e: EvalError) -> bool {
    match view.spec_opt_arg() {
        Some(opt) => {
            let pairs = key_value_options(view.spec_source().spec_bytes(), opt);
            e matches EvalError::UnknownOptArgKey { name, key, expected_keys, span }
                && pairs.len() > 0 && name@ == view.spec_name() && key@ == pairs[0].0
                && expected_keys@ == spec_format_expected(Seq::empty()) && span == opt.span
        },
        None => false,
    }
}

/// `e` refuses the first key of the optional argument of the environment `view`, which takes
/// none (see [`is_first_key_refused`]).
pub open spec fn is_first_environment_key_refused(view: EnvironmentView, e: EvalError) -> bool {
    match view.spec_opt_arg() {
        Some(opt) => {
            let pairs = key_value_options(view.spec_source().spec_bytes(), opt);
            e matches EvalError::UnknownOptArgKey { name, key, expected_keys, span }
                && pairs.len() > 0 && name@ == view.spec_name() && key@ == pairs[0].0
                && expected_keys@ == spec_format_expected(Seq::empty()) && span == opt.span
        },
        None => false,
    }
}

/// Checks that a command takes no optional argument: an `[...]` with any entry is refused with
/// the error for its first key (which no empty schema declares). This is [`collected`] with
/// an empty schema, where no value is ever read.
pub fn expect_no_opt_args(view: &CommandView) -> (r: Result<(), EvalError>)
    requires
        view.wf(),
    ensures
        match view.spec_opt_arg() {
            None => r is Ok,
            Some(opt) => {
                let pairs = key_value_options(view.spec_source().spec_bytes(), opt);
                if pairs.len() == 0 {
                    r is Ok
                } else {
                    r matches Err(EvalError::UnknownOptArgKey { name, key, expected_keys, span })
                        && name@ == view.spec_name() && key@ == pairs[0].0
                        && expected_keys@ == spec_format_expected(Seq::empty()) && span == opt.span
                }
            },
        },
{
    let opt = match view.opt_arg() {
        Some(o) => o,
        None => return Ok(()),
    };
    let pairs = parse_key_value_options(view.source(), opt);
    if pairs.len() == 0 {
        return Ok(());
    }
    proof {
        assert((pairs@[0].0@, pairs@[0].1@) == key_value_options(view.spec_source().spec_bytes(), *opt)[0]);
    }
    let empty: Vec<OptDecl> = Vec::new();
    Err(EvalError::UnknownOptArgKey {
        name: to_owned_string(view.name()),
        key: pairs[0].0.clone(),
        expected_keys: format_expected(empty.as_slice()),
        span: opt.span,
    })
}

/// Checks that an environment takes no optional argument: an `[...]` with any entry is refused
/// with the error for its first key, as for a command (see [`expect_no_opt_args`]).
pub fn expect_no_environment_opt_args(view: &EnvironmentView) -> (r: Result<(), EvalError>)
    requires
        view.wf(),
    ensures
        match view.spec_opt_arg() {
            None => r is Ok,
            Some(opt) => {
                let pairs = key_value_options(view.spec_source().spec_bytes(), opt);
                if pairs.len() == 0 {
                    r is Ok
                } else {
                    r matches Err(EvalError::UnknownOptArgKey { name, key, expected_keys, span })
                        && name@ == view.spec_name() && key@ == pairs[0].0
                        && expected_keys@ == spec_format_expected(Seq::empty()) && span == opt.span
                }
            },
        },
{
    let opt = match view.opt_arg() {
        Some(o) => o,
        None => return Ok(()),
    };
    let pairs = parse_key_value_options(view.source(), opt);
    if pairs.len() == 0 {
        return Ok(());
    }
    proof {
        assert((pairs@[0].0@, pairs@[0].1@) == key_value_options(view.spec_source().spec_bytes(), *opt)[0]);
    }
    let empty: Vec<OptDecl> = Vec::new();
    Err(EvalError::UnknownOptArgKey {
        name: to_owned_string(view.name()),
        key: pairs[0].0.clone(),
        expected_keys: format_expected(empty.as_slice()),
        span: opt.span,
    })
}

} // verus!
