//! Parameters: a type, a name and what the name is set to.

use vstd::prelude::*;
use vstd::string::StringSliceAdditionalSpecFns;
use crate::parser::number::{decimal_value, double, double_at, integer};
use crate::parser::{
    ByteClass, ParseError, byte, byte_at, run1_at, run_end, run_end_is_in_range, sp, sp_at,
    take_while, take_while1, CLOSE_BRACKET, OPEN_BRACKET, QUOTE,
};
use crate::scalar::{Scalar, ONE_KEY};
use crate::vec2::Vec2;
use crate::vec3::Vec3;

verus! {

/// A piece of the input, kept as its bytes.
pub type Text = Vec<u8>;

/// The temperature of a black body and the factor by which its light is
/// scaled.
#[derive(Debug, Clone, Copy, PartialEq, Eq, Structural)]
pub struct Blackbody {
    pub temperature: Scalar,
    pub scale: Scalar,
}

/// A colour by its red, green and blue parts.
#[derive(Debug, Clone, Copy, PartialEq, Eq, Structural)]
pub struct RGB {
    pub r: Scalar,
    pub g: Scalar,
    pub b: Scalar,
}

impl RGB {
    /// The grey whose three parts are `v`.
    pub fn color(v: Scalar) -> (rgb: RGB)
        ensures
            rgb.r == v,
            rgb.g == v,
            rgb.b == v,
    {
        RGB { r: v, g: v, b: v }
    }
}

/// A spectrum, given directly or by the name of where to find it.
#[derive(Debug)]
pub enum Spectrum {
    RGB(RGB),
    Blackbody(Blackbody),
    Texture(Text),
    Spectrum(Text),
    Mapname(Text),
}

/// A number, given directly or by the name of a texture.
#[derive(Debug)]
pub enum BSDFFloat {
    Texture(Text),
    Float(Scalar),
}

/// What a parameter is set to.
#[derive(Debug)]
pub enum Value {
    Integer(Vec<i64>),
    Float(Vec<Scalar>),
    Vec3(Vec<Vec3>),
    Vec2(Vec<Vec2>),
    String(Text),
    Texture(Text),
    Spectrum(Text),
    RGB(RGB),
    Blackbody(Blackbody),
    Boolean(bool),
}

/// What a parameter is set to, as a mathematical value.
pub enum ValueView {
    Integer(Seq<i64>),
    Float(Seq<Scalar>),
    Vec3(Seq<Vec3>),
    Vec2(Seq<Vec2>),
    String(Seq<u8>),
    Texture(Seq<u8>),
    Spectrum(Seq<u8>),
    RGB(RGB),
    Blackbody(Blackbody),
    Boolean(bool),
}

impl View for Value {
    type V = ValueView;

    open spec fn view(&self) -> ValueView {
        match self {
            Value::Integer(v) => ValueView::Integer(v@),
            Value::Float(v) => ValueView::Float(v@),
            Value::Vec3(v) => ValueView::Vec3(v@),
            Value::Vec2(v) => ValueView::Vec2(v@),
            Value::String(v) => ValueView::String(v@),
            Value::Texture(v) => ValueView::Texture(v@),
            Value::Spectrum(v) => ValueView::Spectrum(v@),
            Value::RGB(v) => ValueView::RGB(*v),
            Value::Blackbody(v) => ValueView::Blackbody(*v),
            Value::Boolean(v) => ValueView::Boolean(*v),
        }
    }
}

impl Value {
    /// The integers of an integer parameter.
    pub fn into_integer(self) -> (v: Vec<i64>)
        requires
            self is Integer,
        ensures
            v == self->Integer_0,
    {
        match self {
            Value::Integer(v) => v,
            _ => Vec::new(),
        }
    }

    /// The numbers of a float parameter.
    pub fn into_floats(self) -> (v: Vec<Scalar>)
        requires
            self is Float,
        ensures
            v == self->Float_0,
    {
        match self {
            Value::Float(v) => v,
            _ => Vec::new(),
        }
    }

    /// The number of a float parameter that holds exactly one.
    pub fn into_float(self) -> (v: Scalar)
        requires
            self is Float,
            self->Float_0@.len() == 1,
        ensures
            v == self->Float_0@[0],
    {
        match self {
            Value::Float(v) => v[0],
            _ => Scalar::zero(),
        }
    }

    /// The vector of a vector parameter that holds exactly one.
    #[allow(non_snake_case)]
    pub fn into_Vec3(self) -> (v: Vec3)
        requires
            self is Vec3,
            self->Vec3_0@.len() == 1,
        ensures
            v == self->Vec3_0@[0],
    {
        match self {
            Value::Vec3(v) => v[0],
            _ => Vec3::default(),
        }
    }

    /// The vector of a plane-vector parameter that holds exactly one.
    pub fn into_vector2(self) -> (v: Vec2)
        requires
            self is Vec2,
            self->Vec2_0@.len() == 1,
        ensures
            v == self->Vec2_0@[0],
    {
        match self {
            Value::Vec2(v) => v[0],
            _ => Vec2::default(),
        }
    }

    /// The vectors of a vector parameter.
    pub fn into_vectors3(self) -> (v: Vec<Vec3>)
        requires
            self is Vec3,
        ensures
            v == self->Vec3_0,
    {
        match self {
            Value::Vec3(v) => v,
            _ => Vec::new(),
        }
    }

    /// The vectors of a plane-vector parameter.
    pub fn into_vectors2(self) -> (v: Vec<Vec2>)
        requires
            self is Vec2,
        ensures
            v == self->Vec2_0,
    {
        match self {
            Value::Vec2(v) => v,
            _ => Vec::new(),
        }
    }

    /// The text of a string parameter.
    pub fn into_string(self) -> (v: Text)
        requires
            self is String,
        ensures
            v == self->String_0,
    {
        match self {
            Value::String(v) => v,
            _ => Vec::new(),
        }
    }

    /// The truth value of a boolean parameter.
    pub fn into_bool(self) -> (v: bool)
        requires
            self is Boolean,
        ensures
            v == self->Boolean_0,
    {
        match self {
            Value::Boolean(v) => v,
            _ => false,
        }
    }

    /// The colour of a colour parameter.
    pub fn into_rgb(self) -> (v: RGB)
        requires
            self is RGB,
        ensures
            v == self->RGB_0,
    {
        match self {
            Value::RGB(v) => v,
            _ => RGB::color(Scalar::zero()),
        }
    }

    /// The spectrum that a colour, a black body, a texture name or a
    /// spectrum name stands for.
    pub fn into_spectrum(self) -> (v: Spectrum)
        requires
            self is RGB || self is Blackbody || self is Texture || self is Spectrum,
        ensures
            match self {
                Value::RGB(rgb) => v == Spectrum::RGB(rgb),
                Value::Blackbody(body) => v == Spectrum::Blackbody(body),
                Value::Texture(name) => v == Spectrum::Texture(name),
                Value::Spectrum(name) => v == Spectrum::Spectrum(name),
                _ => false,
            },
    {
        match self {
            Value::RGB(v) => Spectrum::RGB(v),
            Value::Blackbody(v) => Spectrum::Blackbody(v),
            Value::Texture(v) => Spectrum::Texture(v),
            Value::Spectrum(v) => Spectrum::Spectrum(v),
            _ => Spectrum::Mapname(Vec::new()),
        }
    }

    /// The number or texture name that a material takes for one of its
    /// parameters.
    pub fn into_bsdf_float(self) -> (v: BSDFFloat)
        requires
            self is Texture || (self is Float && self->Float_0@.len() == 1),
        ensures
            match self {
                Value::Texture(name) => v == BSDFFloat::Texture(name),
                Value::Float(numbers) => v == BSDFFloat::Float(numbers@[0]),
                _ => false,
            },
    {
        match self {
            Value::Texture(v) => BSDFFloat::Texture(v),
            Value::Float(v) => BSDFFloat::Float(v[0]),
            _ => BSDFFloat::Float(Scalar::zero()),
        }
    }
}

/// The bytes of the input between two places.
pub fn copy_text(input: &[u8], from: usize, to: usize) -> (text: Text)
    requires
        from <= to <= input@.len(),
    ensures
        text@ == input@.subrange(from as int, to as int),
{
    let mut text: Vec<u8> = Vec::new();
    let mut i = from;
    while i < to
        invariant
            from <= i <= to <= input@.len(),
            text@ == input@.subrange(from as int, i as int),
        decreases to - i,
    {
        text.push(input[i]);
        proof {
            assert(text@ =~= input@.subrange(from as int, i + 1));
        }
        i = i + 1;
    }
    text
}

/// Whether the bytes of the input between two places are a given word.
pub fn is_word(input: &[u8], from: usize, to: usize, word: &[u8]) -> (same: bool)
    requires
        from <= to <= input@.len(),
    ensures
        same == (input@.subrange(from as int, to as int) == word@),
{
    if to - from != word.len() {
        return false;
    }
    let mut i: usize = 0;
    while i < word.len()
        invariant
            i <= word@.len(),
            from <= to <= input@.len(),
            to - from == word@.len(),
            forall|k: int| 0 <= k < i ==> input@[from + k] == word@[k],
        decreases word@.len() - i,
    {
        if input[from + i] != word[i] {
            proof {
                assert(input@.subrange(from as int, to as int)[i as int] == input@[from + i]);
            }
            return false;
        }
        i = i + 1;
    }
    proof {
        assert(input@.subrange(from as int, to as int) =~= word@);
    }
    true
}

/// What a value is made of in the text.
#[derive(Clone, Copy, Debug, PartialEq, Eq, Structural)]
pub enum ItemKind {
    /// Runs of digits, each after white space.
    Integers,
    /// One run of letters, with or without quotes round it.
    Word,
    /// Doubles, each after white space.
    Doubles,
    /// One text in quotes.
    Quoted,
}

/// What was read of a value: the places of the pieces, or the numbers.
pub enum Items {
    Integers(Vec<(usize, usize)>),
    Word(usize, usize),
    Doubles(Vec<Scalar>),
    Quoted(usize, usize),
}

/// What was read of a value, as a mathematical value.
pub enum ItemsView {
    Integers(Seq<(usize, usize)>),
    Word(usize, usize),
    Doubles(Seq<Scalar>),
    Quoted(usize, usize),
}

impl View for Items {
    type V = ItemsView;

    open spec fn view(&self) -> ItemsView {
        match self {
            Items::Integers(runs) => ItemsView::Integers(runs@),
            Items::Word(from, to) => ItemsView::Word(*from, *to),
            Items::Doubles(numbers) => ItemsView::Doubles(numbers@),
            Items::Quoted(from, to) => ItemsView::Quoted(*from, *to),
        }
    }
}

/// The bytes between the two places are a run of digits that is not empty.
pub open spec fn is_digit_run(input: Seq<u8>, run: (usize, usize)) -> bool {
    &&& run.0 < run.1 <= input.len()
    &&& forall|k: int| run.0 <= k < run.1 ==> ByteClass::Digit.holds(#[trigger] input[k])
}

/// Every pair of places bounds a run of digits.
pub open spec fn all_digit_runs(input: Seq<u8>, runs: Seq<(usize, usize)>) -> bool {
    forall|i: int| 0 <= i < runs.len() ==> is_digit_run(input, #[trigger] runs[i])
}

impl ItemsView {
    /// The pieces lie in the input, and every piece of an integer list is a
    /// run of digits.
    pub open spec fn fits(self, input: Seq<u8>, kind: ItemKind) -> bool {
        match self {
            ItemsView::Integers(runs) => kind == ItemKind::Integers && all_digit_runs(input, runs),
            ItemsView::Word(from, to) => kind == ItemKind::Word && from < to <= input.len(),
            ItemsView::Doubles(numbers) => kind == ItemKind::Doubles,
            ItemsView::Quoted(from, to) => kind == ItemKind::Quoted && from < to <= input.len(),
        }
    }
}

/// A result that holds a vector, with the vector taken as a sequence.
pub open spec fn list_read<T>(out: Result<(usize, Vec<T>), ParseError>) -> Result<
    (usize, Seq<T>),
    ParseError,
> {
    match out {
        Ok((end, list)) => Ok((end, list@)),
        Err(e) => Err(e),
    }
}

/// What reading doubles gives, each after white space, for as long as
/// there are any, when `found` have been read up to `at`. Reading stops
/// without an error in front of the first thing that is no double; a double
/// that takes up no room is an error, and a failure stays a failure.
pub open spec fn doubles_from(input: Seq<u8>, at: usize, found: Seq<Scalar>) -> Result<
    (usize, Seq<Scalar>),
    ParseError,
>
    decreases input.len() - at,
{
    match double_at(input, sp_at(input, at)) {
        Ok((end, number)) => if at < end <= input.len() {
            doubles_from(input, end, found.push(number))
        } else {
            Err(ParseError::Error)
        },
        Err(ParseError::Error) => Ok((at, found)),
        Err(e) => Err(e),
    }
}

/// Reads doubles, each after white space, for as long as there are any.
pub fn doubles(input: &[u8], at: usize) -> (out: Result<(usize, Vec<Scalar>), ParseError>)
    requires
        at <= input@.len(),
    ensures
        list_read(out) == doubles_from(input@, at, Seq::empty()),
        out matches Ok((end, numbers)) ==> at <= end <= input@.len(),
        out matches Err(e) ==> e != ParseError::Invalid,
{
    let mut numbers: Vec<Scalar> = Vec::new();
    let mut i = at;
    loop
        invariant
            at <= i <= input@.len(),
            doubles_from(input@, at, Seq::empty()) == doubles_from(input@, i, numbers@),
        decreases input@.len() - i,
    {
        let start = sp(input, i);
        match double(input, start) {
            Ok((end, number)) => {
                if end == i {
                    return Err(ParseError::Error);
                }
                numbers.push(number);
                i = end;
            },
            Err(ParseError::Error) => {
                return Ok((i, numbers));
            },
            Err(e) => {
                return Err(e);
            },
        }
    }
}

/// What reading runs of digits gives, each after white space, for as long
/// as there are any, when `found` have been read up to `at`.
pub open spec fn digit_runs_from(input: Seq<u8>, at: usize, found: Seq<(usize, usize)>) -> (
    usize,
    Seq<(usize, usize)>,
)
    decreases input.len() - at,
{
    match run1_at(input, sp_at(input, at), ByteClass::Digit) {
        Ok(end) => if at < end <= input.len() {
            digit_runs_from(input, end, found.push((sp_at(input, at), end)))
        } else {
            (at, found)
        },
        Err(_) => (at, found),
    }
}

/// Reads runs of digits, each after white space, for as long as there are
/// any.
pub fn digit_runs(input: &[u8], at: usize) -> (out: (usize, Vec<(usize, usize)>))
    requires
        at <= input@.len(),
    ensures
        (out.0, out.1@) == digit_runs_from(input@, at, Seq::empty()),
        at <= out.0 <= input@.len(),
        all_digit_runs(input@, out.1@),
{
    let mut runs: Vec<(usize, usize)> = Vec::new();
    let mut i = at;
    loop
        invariant
            at <= i <= input@.len(),
            all_digit_runs(input@, runs@),
            digit_runs_from(input@, at, Seq::empty()) == digit_runs_from(input@, i, runs@),
        decreases input@.len() - i,
    {
        let start = sp(input, i);
        match take_while1(input, start, ByteClass::Digit) {
            Ok(end) => {
                proof {
                    run_end_is_in_range(input@, start as int, ByteClass::Digit);
                }
                let ghost before = runs@;
                assert(is_digit_run(input@, (start, end)));
                runs.push((start, end));
                proof {
                    assert forall|k: int| 0 <= k < runs@.len() implies is_digit_run(
                        input@,
                        #[trigger] runs@[k],
                    ) by {
                        if k < before.len() {
                            assert(runs@[k] == before[k]);
                        }
                    }
                }
                i = end;
            },
            Err(_) => {
                return (i, runs);
            },
        }
    }
}

/// What reading a text in quotes gives that must not be empty: the place
/// behind the closing quote and the places between which the text stands.
pub open spec fn quoted_at(input: Seq<u8>, at: usize) -> Result<
    (usize, (usize, usize)),
    ParseError,
> {
    match byte_at(input, at, QUOTE) {
        Ok(from) => match run1_at(input, from, ByteClass::NotQuote) {
            Ok(to) => match byte_at(input, to, QUOTE) {
                Ok(end) => Ok((end, (from, to))),
                Err(e) => Err(e),
            },
            Err(e) => Err(e),
        },
        Err(e) => Err(e),
    }
}

/// Reads a text in quotes, which must not be empty, and gives the places
/// between which it stands.
pub fn quoted(input: &[u8], at: usize) -> (out: Result<(usize, (usize, usize)), ParseError>)
    requires
        at <= input@.len(),
    ensures
        out == quoted_at(input@, at),
        out matches Ok((end, (from, to))) ==> at < from < to < end <= input@.len(),
        out matches Err(e) ==> e == ParseError::Error,
{
    let from = byte(input, at, QUOTE)?;
    let to = take_while1(input, from, ByteClass::NotQuote)?;
    let end = byte(input, to, QUOTE)?;
    Ok((end, (from, to)))
}

/// What reading a text in quotes gives that may be empty.
pub open spec fn quoted_or_empty_at(input: Seq<u8>, at: usize) -> Result<
    (usize, (usize, usize)),
    ParseError,
> {
    match byte_at(input, at, QUOTE) {
        Ok(from) => match byte_at(
            input,
            run_end(input, from as int, ByteClass::NotQuote) as usize,
            QUOTE,
        ) {
            Ok(end) => Ok((end, (from, run_end(input, from as int, ByteClass::NotQuote) as usize))),
            Err(e) => Err(e),
        },
        Err(e) => Err(e),
    }
}

/// Reads a text in quotes, which may be empty.
pub fn quoted_or_empty(input: &[u8], at: usize) -> (out: Result<
    (usize, (usize, usize)),
    ParseError,
>)
    requires
        at <= input@.len(),
    ensures
        out == quoted_or_empty_at(input@, at),
        out matches Ok((end, (from, to))) ==> at < from <= to < end <= input@.len(),
        out matches Err(e) ==> e == ParseError::Error,
{
    let from = byte(input, at, QUOTE)?;
    let to = take_while(input, from, ByteClass::NotQuote);
    let end = byte(input, to, QUOTE)?;
    Ok((end, (from, to)))
}

/// What reading a word gives: a run of letters in quotes, or, where there
/// is none, a bare run of letters.
pub open spec fn word_at(input: Seq<u8>, at: usize) -> Result<(usize, (usize, usize)), ParseError> {
    let in_quotes: Result<(usize, (usize, usize)), ParseError> = match byte_at(input, at, QUOTE) {
        Ok(from) => match run1_at(input, from, ByteClass::Letter) {
            Ok(to) => match byte_at(input, to, QUOTE) {
                Ok(end) => Ok((end, (from, to))),
                Err(e) => Err(e),
            },
            Err(e) => Err(e),
        },
        Err(e) => Err(e),
    };
    match in_quotes {
        Ok(read) => Ok(read),
        Err(_) => match run1_at(input, at, ByteClass::Letter) {
            Ok(to) => Ok((to, (at, to))),
            Err(e) => Err(e),
        },
    }
}

/// Reads a run of letters in quotes, or, failing that, a bare run of
/// letters.
pub fn word(input: &[u8], at: usize) -> (out: Result<(usize, (usize, usize)), ParseError>)
    requires
        at <= input@.len(),
    ensures
        out == word_at(input@, at),
        out matches Ok((end, (from, to))) ==> at <= from < to <= end <= input@.len(),
        out matches Err(e) ==> e == ParseError::Error,
{
    match byte(input, at, QUOTE) {
        Ok(from) => {
            match take_while1(input, from, ByteClass::Letter) {
                Ok(to) => {
                    match byte(input, to, QUOTE) {
                        Ok(end) => {
                            return Ok((end, (from, to)));
                        },
                        Err(_) => {},
                    }
                },
                Err(_) => {},
            }
        },
        Err(_) => {},
    }
    let to = take_while1(input, at, ByteClass::Letter)?;
    Ok((to, (at, to)))
}

/// A result that holds items, with the items taken as a mathematical
/// value.
pub open spec fn items_read(out: Result<(usize, Items), ParseError>) -> Result<
    (usize, ItemsView),
    ParseError,
> {
    match out {
        Ok((end, items)) => Ok((end, items@)),
        Err(e) => Err(e),
    }
}

/// What reading the items of a value of one kind gives.
pub open spec fn items_at(input: Seq<u8>, at: usize, kind: ItemKind) -> Result<
    (usize, ItemsView),
    ParseError,
> {
    match kind {
        ItemKind::Integers => Ok(
            (
                digit_runs_from(input, at, Seq::empty()).0,
                ItemsView::Integers(digit_runs_from(input, at, Seq::empty()).1),
            ),
        ),
        ItemKind::Word => match word_at(input, at) {
            Ok((end, (from, to))) => Ok((end, ItemsView::Word(from, to))),
            Err(e) => Err(e),
        },
        ItemKind::Doubles => match doubles_from(input, at, Seq::empty()) {
            Ok((end, numbers)) => Ok((end, ItemsView::Doubles(numbers))),
            Err(e) => Err(e),
        },
        ItemKind::Quoted => match quoted_at(input, at) {
            Ok((end, (from, to))) => Ok((end, ItemsView::Quoted(from, to))),
            Err(e) => Err(e),
        },
    }
}

/// Reads the items of a value of one kind.
pub fn parse_items(input: &[u8], at: usize, kind: ItemKind) -> (out: Result<
    (usize, Items),
    ParseError,
>)
    requires
        at <= input@.len(),
    ensures
        items_read(out) == items_at(input@, at, kind),
        out matches Ok((end, items)) ==> at <= end <= input@.len() && items@.fits(input@, kind),
        out matches Err(e) ==> e != ParseError::Invalid,
{
    match kind {
        ItemKind::Integers => {
            let (end, runs) = digit_runs(input, at);
            Ok((end, Items::Integers(runs)))
        },
        ItemKind::Word => {
            let (end, (from, to)) = word(input, at)?;
            Ok((end, Items::Word(from, to)))
        },
        ItemKind::Doubles => {
            let (end, numbers) = doubles(input, at)?;
            Ok((end, Items::Doubles(numbers)))
        },
        ItemKind::Quoted => {
            let (end, (from, to)) = quoted(input, at)?;
            Ok((end, Items::Quoted(from, to)))
        },
    }
}

/// What reading an opening bracket and the white space behind it gives.
pub open spec fn open_bracket_at(input: Seq<u8>, at: usize) -> Result<usize, ParseError> {
    match byte_at(input, at, OPEN_BRACKET) {
        Ok(inside) => Ok(sp_at(input, inside)),
        Err(e) => Err(e),
    }
}

/// Reads an opening bracket and the white space behind it.
pub fn open_bracket(input: &[u8], at: usize) -> (out: Result<usize, ParseError>)
    requires
        at <= input@.len(),
    ensures
        out == open_bracket_at(input@, at),
        out matches Ok(end) ==> at < end <= input@.len(),
        out matches Err(e) ==> e == ParseError::Error,
{
    let inside = byte(input, at, OPEN_BRACKET)?;
    Ok(sp(input, inside))
}

/// What reading white space and the closing bracket behind it gives.
pub open spec fn close_bracket_at(input: Seq<u8>, at: usize) -> Result<usize, ParseError> {
    byte_at(input, sp_at(input, at), CLOSE_BRACKET)
}

/// Reads white space and the closing bracket behind it.
pub fn close_bracket(input: &[u8], at: usize) -> (out: Result<usize, ParseError>)
    requires
        at <= input@.len(),
    ensures
        out == close_bracket_at(input@, at),
        out matches Ok(end) ==> at < end <= input@.len(),
        out matches Err(e) ==> e == ParseError::Error,
{
    let before = sp(input, at);
    byte(input, before, CLOSE_BRACKET)
}

/// What reading the items of a value in brackets gives.
pub open spec fn bracketed_items_at(input: Seq<u8>, at: usize, kind: ItemKind) -> Result<
    (usize, ItemsView),
    ParseError,
> {
    match open_bracket_at(input, at) {
        Ok(inside) => match items_at(input, inside, kind) {
            Ok((after, items)) => match close_bracket_at(input, after) {
                Ok(end) => Ok((end, items)),
                Err(e) => Err(e),
            },
            Err(e) => Err(e),
        },
        Err(e) => Err(e),
    }
}

/// What reading the items of a value gives: those in brackets, or, where
/// reading in brackets ends in an error, those that stand bare at the same
/// place.
pub open spec fn helper_at(input: Seq<u8>, at: usize, kind: ItemKind) -> Result<
    (usize, ItemsView),
    ParseError,
> {
    match bracketed_items_at(input, at, kind) {
        Err(ParseError::Error) => items_at(input, at, kind),
        other => other,
    }
}

/// Reads the items of a value, in brackets or, where that does not work,
/// without.
pub fn parse_value_helper(input: &[u8], at: usize, kind: ItemKind) -> (out: Result<
    (usize, Items),
    ParseError,
>)
    requires
        at <= input@.len(),
    ensures
        items_read(out) == helper_at(input@, at, kind),
        out matches Ok((end, items)) ==> at <= end <= input@.len() && items@.fits(input@, kind),
        out matches Err(e) ==> e != ParseError::Invalid,
{
    match open_bracket(input, at) {
        Ok(inside) => {
            match parse_items(input, inside, kind) {
                Ok((after, items)) => {
                    match close_bracket(input, after) {
                        Ok(end) => {
                            return Ok((end, items));
                        },
                        Err(_) => {},
                    }
                },
                Err(ParseError::Error) => {},
                Err(e) => {
                    return Err(e);
                },
            }
        },
        Err(_) => {},
    }
    parse_items(input, at, kind)
}

/// What reading doubles in brackets gives.
pub open spec fn bracketed_doubles_at(input: Seq<u8>, at: usize) -> Result<
    (usize, Seq<Scalar>),
    ParseError,
> {
    match open_bracket_at(input, at) {
        Ok(inside) => match doubles_from(input, inside, Seq::empty()) {
            Ok((after, numbers)) => match close_bracket_at(input, after) {
                Ok(end) => Ok((end, numbers)),
                Err(e) => Err(e),
            },
            Err(e) => Err(e),
        },
        Err(e) => Err(e),
    }
}

/// Reads doubles in brackets.
pub fn bracketed_doubles(input: &[u8], at: usize) -> (out: Result<
    (usize, Vec<Scalar>),
    ParseError,
>)
    requires
        at <= input@.len(),
    ensures
        list_read(out) == bracketed_doubles_at(input@, at),
        out matches Ok((end, numbers)) ==> at < end <= input@.len(),
        out matches Err(e) ==> e != ParseError::Invalid,
{
    let inside = open_bracket(input, at)?;
    let (after, numbers) = doubles(input, inside)?;
    let end = close_bracket(input, after)?;
    Ok((end, numbers))
}

/// The vectors that a list of numbers spells, three numbers to a vector.
pub open spec fn triples_of(numbers: Seq<Scalar>) -> Seq<Vec3> {
    Seq::new(
        (numbers.len() / 3) as nat,
        |i: int| Vec3 { x: numbers[3 * i], y: numbers[3 * i + 1], z: numbers[3 * i + 2] },
    )
}

/// The plane vectors that a list of numbers spells, two numbers to a
/// vector.
pub open spec fn pairs_of(numbers: Seq<Scalar>) -> Seq<Vec2> {
    Seq::new(
        (numbers.len() / 2) as nat,
        |i: int| Vec2 { x: numbers[2 * i], y: numbers[2 * i + 1] },
    )
}

/// The vectors that a list of numbers spells, three numbers to a vector.
pub fn triples(numbers: &Vec<Scalar>) -> (vectors: Vec<Vec3>)
    requires
        numbers@.len() % 3 == 0,
    ensures
        vectors@ == triples_of(numbers@),
{
    let mut vectors: Vec<Vec3> = Vec::new();
    let mut i: usize = 0;
    while i < numbers.len()
        invariant
            i <= numbers@.len(),
            i % 3 == 0,
            numbers@.len() % 3 == 0,
            vectors@.len() == i / 3,
            forall|k: int|
                0 <= k < vectors@.len() ==> (#[trigger] vectors@[k]) == (Vec3 {
                    x: numbers@[3 * k],
                    y: numbers@[3 * k + 1],
                    z: numbers@[3 * k + 2],
                }),
        decreases numbers@.len() - i,
    {
        vectors.push(Vec3::new(numbers[i], numbers[i + 1], numbers[i + 2]));
        i = i + 3;
    }
    proof {
        assert(vectors@ =~= triples_of(numbers@));
    }
    vectors
}

/// The plane vectors that a list of numbers spells, two numbers to a vector.
pub fn pairs(numbers: &Vec<Scalar>) -> (vectors: Vec<Vec2>)
    requires
        numbers@.len() % 2 == 0,
    ensures
        vectors@ == pairs_of(numbers@),
{
    let mut vectors: Vec<Vec2> = Vec::new();
    let mut i: usize = 0;
    while i < numbers.len()
        invariant
            i <= numbers@.len(),
            i % 2 == 0,
            numbers@.len() % 2 == 0,
            vectors@.len() == i / 2,
            forall|k: int|
                0 <= k < vectors@.len() ==> (#[trigger] vectors@[k]) == (Vec2 {
                    x: numbers@[2 * k],
                    y: numbers@[2 * k + 1],
                }),
        decreases numbers@.len() - i,
    {
        vectors.push(Vec2::new(numbers[i], numbers[i + 1]));
        i = i + 2;
    }
    proof {
        assert(vectors@ =~= pairs_of(numbers@));
    }
    vectors
}

/// The integers that runs of digits spell, from the run at `done` on, when
/// `found` have been read: a run that spells a number above the largest
/// 64-bit signed integer makes the list invalid.
pub open spec fn integers_from(
    input: Seq<u8>,
    runs: Seq<(usize, usize)>,
    done: int,
    found: Seq<i64>,
) -> Result<Seq<i64>, ParseError>
    decreases runs.len() - done,
{
    if done < 0 || done >= runs.len() {
        Ok(found)
    } else if decimal_value(input.subrange(runs[done].0 as int, runs[done].1 as int)) > i64::MAX {
        Err(ParseError::Invalid)
    } else {
        integers_from(
            input,
            runs,
            done + 1,
            found.push(
                decimal_value(input.subrange(runs[done].0 as int, runs[done].1 as int)) as i64,
            ),
        )
    }
}

/// The integers that runs of digits spell.
pub fn integers(input: &[u8], runs: &Vec<(usize, usize)>) -> (out: Result<Vec<i64>, ParseError>)
    requires
        all_digit_runs(input@, runs@),
    ensures
        match out {
            Ok(values) => integers_from(input@, runs@, 0, Seq::empty()) == Ok::<
                Seq<i64>,
                ParseError,
            >(values@),
            Err(e) => integers_from(input@, runs@, 0, Seq::empty()) == Err::<Seq<i64>, ParseError>(
                e,
            ) && e == ParseError::Invalid,
        },
{
    let mut values: Vec<i64> = Vec::new();
    let mut i: usize = 0;
    while i < runs.len()
        invariant
            i <= runs@.len(),
            all_digit_runs(input@, runs@),
            integers_from(input@, runs@, 0, Seq::empty()) == integers_from(
                input@,
                runs@,
                i as int,
                values@,
            ),
        decreases runs@.len() - i,
    {
        let run = runs[i];
        assert(is_digit_run(input@, runs@[i as int]));
        let value = integer(input, run.0, run.1)?;
        values.push(value);
        i = i + 1;
    }
    Ok(values)
}

/// Whether the bytes between two places are a given word.
pub open spec fn text_is(input: Seq<u8>, span: (usize, usize), word: Seq<u8>) -> bool {
    input.subrange(span.0 as int, span.1 as int) == word
}

/// What reading the head of a parameter gives, its type and its name in
/// one pair of quotes: the place behind the closing quote, and the places
/// between which the type and the name stand.
pub open spec fn header_at(input: Seq<u8>, at: usize) -> Result<
    (usize, ((usize, usize), (usize, usize))),
    ParseError,
> {
    match byte_at(input, at, QUOTE) {
        Ok(type_from) => match run1_at(input, type_from, ByteClass::NotSpace) {
            Ok(type_to) => match run1_at(input, sp_at(input, type_to), ByteClass::NotQuote) {
                Ok(name_to) => match byte_at(input, name_to, QUOTE) {
                    Ok(end) => Ok(
                        (end, ((type_from, type_to), (sp_at(input, type_to), name_to))),
                    ),
                    Err(e) => Err(e),
                },
                Err(e) => Err(e),
            },
            Err(e) => Err(e),
        },
        Err(e) => Err(e),
    }
}

/// Reads the head of a parameter.
pub fn header(input: &[u8], at: usize) -> (out: Result<
    (usize, ((usize, usize), (usize, usize))),
    ParseError,
>)
    requires
        at <= input@.len(),
    ensures
        out == header_at(input@, at),
        out matches Ok((end, (kind, name))) ==> {
            &&& at < kind.0 < kind.1 <= name.0 < name.1 < end <= input@.len()
        },
        out matches Err(e) ==> e == ParseError::Error,
{
    let type_from = byte(input, at, QUOTE)?;
    let type_to = take_while1(input, type_from, ByteClass::NotSpace)?;
    let name_from = sp(input, type_to);
    let name_to = take_while1(input, name_from, ByteClass::NotQuote)?;
    let end = byte(input, name_to, QUOTE)?;
    Ok((end, ((type_from, type_to), (name_from, name_to))))
}

/// A result that holds a value, with the value taken as a mathematical
/// value.
pub open spec fn value_read(out: Result<(usize, Value), ParseError>) -> Result<
    (usize, ValueView),
    ParseError,
> {
    match out {
        Ok((end, value)) => Ok((end, value@)),
        Err(e) => Err(e),
    }
}

/// What reading the integers of a parameter gives.
pub open spec fn integer_value_at(input: Seq<u8>, at: usize) -> Result<
    (usize, ValueView),
    ParseError,
> {
    match helper_at(input, at, ItemKind::Integers) {
        Ok((end, ItemsView::Integers(runs))) => match integers_from(input, runs, 0, Seq::empty()) {
            Ok(values) => Ok((end, ValueView::Integer(values))),
            Err(e) => Err(e),
        },
        Ok(_) => Err(ParseError::Invalid),
        Err(e) => Err(e),
    }
}

/// Reads the integers of a parameter.
pub fn integer_value(input: &[u8], at: usize) -> (out: Result<(usize, Value), ParseError>)
    requires
        at <= input@.len(),
    ensures
        value_read(out) == integer_value_at(input@, at),
        out matches Ok((end, value)) ==> at <= end <= input@.len(),
{
    let (end, items) = parse_value_helper(input, at, ItemKind::Integers)?;
    match items {
        Items::Integers(runs) => Ok((end, Value::Integer(integers(input, &runs)?))),
        _ => Err(ParseError::Invalid),
    }
}

/// What reading the truth value of a parameter gives: it has to be the
/// word `true` or the word `false`.
pub open spec fn boolean_value_at(input: Seq<u8>, at: usize) -> Result<
    (usize, ValueView),
    ParseError,
> {
    match helper_at(input, at, ItemKind::Word) {
        Ok((end, ItemsView::Word(from, to))) => if text_is(
            input,
            (from, to),
            "false".spec_bytes(),
        ) {
            Ok((end, ValueView::Boolean(false)))
        } else if text_is(input, (from, to), "true".spec_bytes()) {
            Ok((end, ValueView::Boolean(true)))
        } else {
            Err(ParseError::Invalid)
        },
        Ok(_) => Err(ParseError::Invalid),
        Err(e) => Err(e),
    }
}

/// Reads the truth value of a parameter.
pub fn boolean_value(input: &[u8], at: usize) -> (out: Result<(usize, Value), ParseError>)
    requires
        at <= input@.len(),
    ensures
        value_read(out) == boolean_value_at(input@, at),
        out matches Ok((end, value)) ==> at <= end <= input@.len(),
{
    let (end, items) = parse_value_helper(input, at, ItemKind::Word)?;
    match items {
        Items::Word(from, to) => {
            if is_word(input, from, to, "false".as_bytes()) {
                Ok((end, Value::Boolean(false)))
            } else if is_word(input, from, to, "true".as_bytes()) {
                Ok((end, Value::Boolean(true)))
            } else {
                Err(ParseError::Invalid)
            }
        },
        _ => Err(ParseError::Invalid),
    }
}

/// What reading the vectors of a parameter gives: numbers in brackets,
/// three to a vector.
pub open spec fn vectors3_value_at(input: Seq<u8>, at: usize) -> Result<
    (usize, ValueView),
    ParseError,
> {
    match bracketed_doubles_at(input, at) {
        Ok((end, numbers)) => if numbers.len() % 3 == 0 {
            Ok((end, ValueView::Vec3(triples_of(numbers))))
        } else {
            Err(ParseError::Invalid)
        },
        Err(e) => Err(e),
    }
}

/// Reads the vectors of a parameter.
pub fn vectors3_value(input: &[u8], at: usize) -> (out: Result<(usize, Value), ParseError>)
    requires
        at <= input@.len(),
    ensures
        value_read(out) == vectors3_value_at(input@, at),
        out matches Ok((end, value)) ==> at <= end <= input@.len(),
{
    let (end, numbers) = bracketed_doubles(input, at)?;
    if numbers.len() % 3 != 0 {
        return Err(ParseError::Invalid);
    }
    Ok((end, Value::Vec3(triples(&numbers))))
}

/// What reading the plane vectors of a parameter gives: numbers in
/// brackets, two to a vector.
pub open spec fn vectors2_value_at(input: Seq<u8>, at: usize) -> Result<
    (usize, ValueView),
    ParseError,
> {
    match bracketed_doubles_at(input, at) {
        Ok((end, numbers)) => if numbers.len() % 2 == 0 {
            Ok((end, ValueView::Vec2(pairs_of(numbers))))
        } else {
            Err(ParseError::Invalid)
        },
        Err(e) => Err(e),
    }
}

/// Reads the plane vectors of a parameter.
pub fn vectors2_value(input: &[u8], at: usize) -> (out: Result<(usize, Value), ParseError>)
    requires
        at <= input@.len(),
    ensures
        value_read(out) == vectors2_value_at(input@, at),
        out matches Ok((end, value)) ==> at <= end <= input@.len(),
{
    let (end, numbers) = bracketed_doubles(input, at)?;
    if numbers.len() % 2 != 0 {
        return Err(ParseError::Invalid);
    }
    Ok((end, Value::Vec2(pairs(&numbers))))
}

/// What reading the numbers of a parameter gives.
pub open spec fn float_value_at(input: Seq<u8>, at: usize) -> Result<
    (usize, ValueView),
    ParseError,
> {
    match helper_at(input, at, ItemKind::Doubles) {
        Ok((end, ItemsView::Doubles(numbers))) => Ok((end, ValueView::Float(numbers))),
        Ok(_) => Err(ParseError::Invalid),
        Err(e) => Err(e),
    }
}

/// Reads the numbers of a parameter.
pub fn float_value(input: &[u8], at: usize) -> (out: Result<(usize, Value), ParseError>)
    requires
        at <= input@.len(),
    ensures
        value_read(out) == float_value_at(input@, at),
        out matches Ok((end, value)) ==> at <= end <= input@.len(),
{
    let (end, items) = parse_value_helper(input, at, ItemKind::Doubles)?;
    match items {
        Items::Doubles(numbers) => Ok((end, Value::Float(numbers))),
        _ => Err(ParseError::Invalid),
    }
}

/// What reading the colour of a parameter gives: three numbers in
/// brackets.
pub open spec fn rgb_value_at(input: Seq<u8>, at: usize) -> Result<(usize, ValueView), ParseError> {
    match open_bracket_at(input, at) {
        Ok(inside) => match double_at(input, inside) {
            Ok((after_r, r)) => match double_at(input, sp_at(input, after_r)) {
                Ok((after_g, g)) => match double_at(input, sp_at(input, after_g)) {
                    Ok((after_b, b)) => match close_bracket_at(input, after_b) {
                        Ok(end) => Ok((end, ValueView::RGB(RGB { r, g, b }))),
                        Err(e) => Err(e),
                    },
                    Err(e) => Err(e),
                },
                Err(e) => Err(e),
            },
            Err(e) => Err(e),
        },
        Err(e) => Err(e),
    }
}

/// Reads the colour of a parameter.
pub fn rgb_value(input: &[u8], at: usize) -> (out: Result<(usize, Value), ParseError>)
    requires
        at <= input@.len(),
    ensures
        value_read(out) == rgb_value_at(input@, at),
        out matches Ok((end, value)) ==> at <= end <= input@.len(),
{
    let inside = open_bracket(input, at)?;
    let (after_r, r) = double(input, inside)?;
    let (after_g, g) = double(input, sp(input, after_r))?;
    let (after_b, b) = double(input, sp(input, after_g))?;
    let end = close_bracket(input, after_b)?;
    Ok((end, Value::RGB(RGB { r, g, b })))
}

/// What reading the black body of a parameter gives: in brackets a
/// temperature and a scale, or a temperature alone, which is scaled by one.
pub open spec fn blackbody_value_at(input: Seq<u8>, at: usize) -> Result<
    (usize, ValueView),
    ParseError,
> {
    match open_bracket_at(input, at) {
        Ok(inside) => match double_at(input, inside) {
            Ok((after_temperature, temperature)) => match double_at(
                input,
                sp_at(input, after_temperature),
            ) {
                Ok((after_scale, scale)) => match close_bracket_at(input, after_scale) {
                    Ok(end) => Ok((end, ValueView::Blackbody(Blackbody { temperature, scale }))),
                    Err(e) => Err(e),
                },
                Err(ParseError::Error) => match close_bracket_at(input, after_temperature) {
                    Ok(end) => Ok(
                        (
                            end,
                            ValueView::Blackbody(
                                Blackbody { temperature, scale: Scalar { key: ONE_KEY } },
                            ),
                        ),
                    ),
                    Err(e) => Err(e),
                },
                Err(e) => Err(e),
            },
            Err(e) => Err(e),
        },
        Err(e) => Err(e),
    }
}

/// Reads the black body of a parameter.
pub fn blackbody_value(input: &[u8], at: usize) -> (out: Result<(usize, Value), ParseError>)
    requires
        at <= input@.len(),
    ensures
        value_read(out) == blackbody_value_at(input@, at),
        out matches Ok((end, value)) ==> at <= end <= input@.len(),
{
    let inside = open_bracket(input, at)?;
    let (after_temperature, temperature) = double(input, inside)?;
    let (after, scale) = match double(input, sp(input, after_temperature)) {
        Ok((after_scale, scale)) => (after_scale, scale),
        Err(ParseError::Error) => (after_temperature, Scalar::one()),
        Err(e) => {
            return Err(e);
        },
    };
    let end = close_bracket(input, after)?;
    Ok((end, Value::Blackbody(Blackbody { temperature, scale })))
}

/// What a text parameter is called by its type: a string, a texture or a
/// spectrum.
#[derive(Clone, Copy, Debug, PartialEq, Eq, Structural)]
pub enum TextKind {
    String,
    Texture,
    Spectrum,
}

/// What reading the text of a parameter gives: a text in quotes, with or
/// without brackets round it.
pub open spec fn text_value_at(input: Seq<u8>, at: usize, kind: TextKind) -> Result<
    (usize, ValueView),
    ParseError,
> {
    match helper_at(input, at, ItemKind::Quoted) {
        Ok((end, ItemsView::Quoted(from, to))) => Ok(
            (
                end,
                match kind {
                    TextKind::String => ValueView::String(input.subrange(from as int, to as int)),
                    TextKind::Texture => ValueView::Texture(
                        input.subrange(from as int, to as int),
                    ),
                    TextKind::Spectrum => ValueView::Spectrum(
                        input.subrange(from as int, to as int),
                    ),
                },
            ),
        ),
        Ok(_) => Err(ParseError::Invalid),
        Err(e) => Err(e),
    }
}

/// Reads the text of a parameter.
pub fn text_value(input: &[u8], at: usize, kind: TextKind) -> (out: Result<
    (usize, Value),
    ParseError,
>)
    requires
        at <= input@.len(),
    ensures
        value_read(out) == text_value_at(input@, at, kind),
        out matches Ok((end, value)) ==> at <= end <= input@.len(),
{
    let (end, items) = parse_value_helper(input, at, ItemKind::Quoted)?;
    match items {
        Items::Quoted(from, to) => {
            let text = copy_text(input, from, to);
            match kind {
                TextKind::String => Ok((end, Value::String(text))),
                TextKind::Texture => Ok((end, Value::Texture(text))),
                TextKind::Spectrum => Ok((end, Value::Spectrum(text))),
            }
        },
        _ => Err(ParseError::Invalid),
    }
}

/// What reading what a parameter is set to gives, by the word for its
/// type. A word that names no type is invalid.
pub open spec fn typed_value_at(input: Seq<u8>, kind: Seq<u8>, at: usize) -> Result<
    (usize, ValueView),
    ParseError,
> {
    if kind == "integer".spec_bytes() {
        integer_value_at(input, at)
    } else if kind == "bool".spec_bytes() || kind == "boolean".spec_bytes() {
        boolean_value_at(input, at)
    } else if kind == "point".spec_bytes() || kind == "normal".spec_bytes() || kind
        == "vector".spec_bytes() || kind == "Vec3".spec_bytes() || kind == "point3".spec_bytes() {
        vectors3_value_at(input, at)
    } else if kind == "vector2".spec_bytes() || kind == "point2".spec_bytes() {
        vectors2_value_at(input, at)
    } else if kind == "float".spec_bytes() {
        float_value_at(input, at)
    } else if kind == "rgb".spec_bytes() || kind == "color".spec_bytes() {
        rgb_value_at(input, at)
    } else if kind == "blackbody".spec_bytes() {
        blackbody_value_at(input, at)
    } else if kind == "string".spec_bytes() {
        text_value_at(input, at, TextKind::String)
    } else if kind == "texture".spec_bytes() {
        text_value_at(input, at, TextKind::Texture)
    } else if kind == "spectrum".spec_bytes() {
        text_value_at(input, at, TextKind::Spectrum)
    } else {
        Err(ParseError::Invalid)
    }
}

/// Reads what a parameter is set to, by the word for its type, which stands
/// between two places of the input.
pub fn typed_value(input: &[u8], kind: (usize, usize), at: usize) -> (out: Result<
    (usize, Value),
    ParseError,
>)
    requires
        kind.0 <= kind.1 <= input@.len(),
        at <= input@.len(),
    ensures
        value_read(out) == typed_value_at(
            input@,
            input@.subrange(kind.0 as int, kind.1 as int),
            at,
        ),
        out matches Ok((end, value)) ==> at <= end <= input@.len(),
{
    let (from, to) = kind;
    if is_word(input, from, to, "integer".as_bytes()) {
        integer_value(input, at)
    } else if is_word(input, from, to, "bool".as_bytes()) || is_word(
        input,
        from,
        to,
        "boolean".as_bytes(),
    ) {
        boolean_value(input, at)
    } else if is_word(input, from, to, "point".as_bytes()) || is_word(
        input,
        from,
        to,
        "normal".as_bytes(),
    ) || is_word(input, from, to, "vector".as_bytes()) || is_word(
        input,
        from,
        to,
        "Vec3".as_bytes(),
    ) || is_word(input, from, to, "point3".as_bytes()) {
        vectors3_value(input, at)
    } else if is_word(input, from, to, "vector2".as_bytes()) || is_word(
        input,
        from,
        to,
        "point2".as_bytes(),
    ) {
        vectors2_value(input, at)
    } else if is_word(input, from, to, "float".as_bytes()) {
        float_value(input, at)
    } else if is_word(input, from, to, "rgb".as_bytes()) || is_word(
        input,
        from,
        to,
        "color".as_bytes(),
    ) {
        rgb_value(input, at)
    } else if is_word(input, from, to, "blackbody".as_bytes()) {
        blackbody_value(input, at)
    } else if is_word(input, from, to, "string".as_bytes()) {
        text_value(input, at, TextKind::String)
    } else if is_word(input, from, to, "texture".as_bytes()) {
        text_value(input, at, TextKind::Texture)
    } else if is_word(input, from, to, "spectrum".as_bytes()) {
        text_value(input, at, TextKind::Spectrum)
    } else {
        Err(ParseError::Invalid)
    }
}

/// A result that holds a named value, with name and value taken as
/// mathematical values.
pub open spec fn parameter_read(out: Result<(usize, (Text, Value)), ParseError>) -> Result<
    (usize, (Seq<u8>, ValueView)),
    ParseError,
> {
    match out {
        Ok((end, (name, value))) => Ok((end, (name@, value@))),
        Err(e) => Err(e),
    }
}

/// What reading a parameter gives: its head, white space, and what it is
/// set to, written as its type asks; the name comes with the value.
pub open spec fn value_at(input: Seq<u8>, at: usize) -> Result<
    (usize, (Seq<u8>, ValueView)),
    ParseError,
> {
    match header_at(input, at) {
        Ok((header_end, (kind, name))) => match typed_value_at(
            input,
            input.subrange(kind.0 as int, kind.1 as int),
            sp_at(input, header_end),
        ) {
            Ok((end, value)) => Ok((end, (input.subrange(name.0 as int, name.1 as int), value))),
            Err(e) => Err(e),
        },
        Err(e) => Err(e),
    }
}

/// Reads a parameter: in quotes its type and its name, separated by white
/// space, and behind them what it is set to, written as the type asks.
///
/// The text is invalid where the type is none of those known, a truth value
/// is neither `true` nor `false`, an integer is too large, or a list of
/// vectors does not hold a whole number of vectors.
pub fn parse_value(input: &[u8], at: usize) -> (out: Result<(usize, (Text, Value)), ParseError>)
    requires
        at <= input@.len(),
    ensures
        parameter_read(out) == value_at(input@, at),
        out matches Ok((end, (name, value))) ==> at < end <= input@.len(),
{
    let (header_end, (kind, name)) = header(input, at)?;
    let start = sp(input, header_end);
    let (end, value) = typed_value(input, kind, start)?;
    Ok((end, (copy_text(input, name.0, name.1), value)))
}

} // verus!
