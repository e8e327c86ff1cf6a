//! Statements of the scene language.

use vstd::prelude::*;
use vstd::string::StringSliceAdditionalSpecFns;
use crate::parser::number::{double, double_at};
use crate::parser::value::{
    Text, Value, ValueView, bracketed_doubles, bracketed_doubles_at, copy_text, parse_value,
    quoted, quoted_at, quoted_or_empty, quoted_or_empty_at, value_at,
};
use crate::parser::{
    ByteClass, Keyword, NamedTokenType, ParseError, blank_end, blank_end_skips_comments, byte,
    byte_at, keyword_at, named_token_type_at, parse_keyword, parse_named_token_type, run1_at,
    run_end, run_end_is_in_range, sp, sp_at, tag, tag_at, take_while, take_while1, HASH, QUOTE,
};
use crate::scalar::Scalar;
use crate::vec3::Vec3;

verus! {

/// A statement that names a kind of object and sets its parameters.
#[derive(Debug)]
pub struct NamedToken {
    pub internal_type: Text,
    pub values: Vec<(Text, Value)>,
    pub object_type: NamedTokenType,
}

/// A statement.
#[derive(Debug)]
pub enum Token {
    Transform(Vec<Scalar>),
    ConcatTransform(Vec<Scalar>),
    Texture { name: Text, t: Text, class: Text, values: Vec<(Text, Value)> },
    NamedToken(NamedToken),
    Keyword(Keyword),
    MediumInterface { inside: Text, outside: Text },
    LookAt { eye: Vec3, look: Vec3, up: Vec3 },
    Scale(Vec3),
    Translate(Vec3),
    Rotate { angle: Scalar, axis: Vec3 },
    ActiveTransform(Text),
}

/// Parameters as mathematical values: names and what they are set to, in
/// the order in which they were written.
pub open spec fn parameters_view(values: Seq<(Text, Value)>) -> Seq<(Seq<u8>, ValueView)> {
    Seq::new(values.len(), |i: int| (values[i].0@, values[i].1@))
}

/// A named statement as a mathematical value.
pub struct NamedTokenView {
    pub internal_type: Seq<u8>,
    pub values: Seq<(Seq<u8>, ValueView)>,
    pub object_type: NamedTokenType,
}

impl View for NamedToken {
    type V = NamedTokenView;

    open spec fn view(&self) -> NamedTokenView {
        NamedTokenView {
            internal_type: self.internal_type@,
            values: parameters_view(self.values@),
            object_type: self.object_type,
        }
    }
}

/// A statement as a mathematical value.
pub enum TokenView {
    Transform(Seq<Scalar>),
    ConcatTransform(Seq<Scalar>),
    Texture { name: Seq<u8>, t: Seq<u8>, class: Seq<u8>, values: Seq<(Seq<u8>, ValueView)> },
    NamedToken(NamedTokenView),
    Keyword(Keyword),
    MediumInterface { inside: Seq<u8>, outside: Seq<u8> },
    LookAt { eye: Vec3, look: Vec3, up: Vec3 },
    Scale(Vec3),
    Translate(Vec3),
    Rotate { angle: Scalar, axis: Vec3 },
    ActiveTransform(Seq<u8>),
}

impl View for Token {
    type V = TokenView;

    open spec fn view(&self) -> TokenView {
        match self {
            Token::Transform(numbers) => TokenView::Transform(numbers@),
            Token::ConcatTransform(numbers) => TokenView::ConcatTransform(numbers@),
            Token::Texture { name, t, class, values } => TokenView::Texture {
                name: name@,
                t: t@,
                class: class@,
                values: parameters_view(values@),
            },
            Token::NamedToken(token) => TokenView::NamedToken(token@),
            Token::Keyword(keyword) => TokenView::Keyword(*keyword),
            Token::MediumInterface { inside, outside } => TokenView::MediumInterface {
                inside: inside@,
                outside: outside@,
            },
            Token::LookAt { eye, look, up } => TokenView::LookAt {
                eye: *eye,
                look: *look,
                up: *up,
            },
            Token::Scale(by) => TokenView::Scale(*by),
            Token::Translate(by) => TokenView::Translate(*by),
            Token::Rotate { angle, axis } => TokenView::Rotate { angle: *angle, axis: *axis },
            Token::ActiveTransform(name) => TokenView::ActiveTransform(name@),
        }
    }
}

/// Statements as mathematical values.
pub open spec fn tokens_view(tokens: Seq<Token>) -> Seq<TokenView> {
    Seq::new(tokens.len(), |i: int| tokens[i]@)
}

/// Named statements as mathematical values.
pub open spec fn named_tokens_view(tokens: Seq<NamedToken>) -> Seq<NamedTokenView> {
    Seq::new(tokens.len(), |i: int| tokens[i]@)
}

/// A result that holds a statement, with the statement taken as a
/// mathematical value.
pub open spec fn token_read(out: Result<(usize, Token), ParseError>) -> Result<
    (usize, TokenView),
    ParseError,
> {
    match out {
        Ok((end, token)) => Ok((end, token@)),
        Err(e) => Err(e),
    }
}

/// Whether two texts are the same.
pub fn same_text(one: &Vec<u8>, other: &[u8]) -> (same: bool)
    ensures
        same == (one@ == other@),
{
    if one.len() != other.len() {
        return false;
    }
    let mut i: usize = 0;
    while i < one.len()
        invariant
            i <= one@.len(),
            one@.len() == other@.len(),
            forall|k: int| 0 <= k < i ==> one@[k] == other@[k],
        decreases one@.len() - i,
    {
        if one[i] != other[i] {
            return false;
        }
        i = i + 1;
    }
    proof {
        assert(one@ =~= other@);
    }
    true
}

/// The place of the parameter that counts for a name among the first
/// `upto` parameters: the last one of that name, since a later setting
/// replaces an earlier one.
pub open spec fn last_named(values: Seq<(Text, Value)>, name: Seq<u8>, upto: int) -> Option<int>
    decreases upto,
{
    if upto <= 0 {
        None
    } else if values[upto - 1].0@ == name {
        Some(upto - 1)
    } else {
        last_named(values, name, upto - 1)
    }
}

/// Finds the parameter that counts for a name: the last one of that name.
pub fn lookup(values: &Vec<(Text, Value)>, name: &[u8]) -> (found: Option<usize>)
    ensures
        match found {
            Some(i) => last_named(values@, name@, values@.len() as int) == Some(i as int) && i
                < values@.len() && values@[i as int].0@ == name@,
            None => last_named(values@, name@, values@.len() as int) is None,
        },
{
    let mut i = values.len();
    while i > 0
        invariant
            i <= values@.len(),
            last_named(values@, name@, values@.len() as int) == last_named(
                values@,
                name@,
                i as int,
            ),
        decreases i,
    {
        i = i - 1;
        if same_text(&values[i].0, name) {
            return Some(i);
        }
    }
    None
}

/// What reading parameters gives, each after white space, for as long as
/// there are any, when `found` have been read up to `at`. Reading stops
/// without an error in front of the first thing that is no parameter; a
/// parameter that starts well and then goes wrong is a failure.
pub open spec fn parameters_from(
    input: Seq<u8>,
    at: usize,
    found: Seq<(Seq<u8>, ValueView)>,
) -> Result<(usize, Seq<(Seq<u8>, ValueView)>), ParseError>
    decreases input.len() - at,
{
    match value_at(input, sp_at(input, at)) {
        Ok((end, item)) => if at < end <= input.len() {
            parameters_from(input, end, found.push(item))
        } else {
            Err(ParseError::Failure)
        },
        Err(ParseError::Error) => Ok((at, found)),
        Err(e) => Err(e),
    }
}

/// Reads parameters, each after white space, for as long as there are any.
pub fn parameters(input: &[u8], at: usize) -> (out: Result<
    (usize, Vec<(Text, Value)>),
    ParseError,
>)
    requires
        at <= input@.len(),
    ensures
        match out {
            Ok((end, values)) => parameters_from(input@, at, Seq::empty()) == Ok::<
                (usize, Seq<(Seq<u8>, ValueView)>),
                ParseError,
            >((end, parameters_view(values@))) && at <= end <= input@.len(),
            Err(e) => parameters_from(input@, at, Seq::empty()) == Err::<
                (usize, Seq<(Seq<u8>, ValueView)>),
                ParseError,
            >(e) && e != ParseError::Error,
        },
{
    let mut values: Vec<(Text, Value)> = Vec::new();
    let mut i = at;
    proof {
        assert(parameters_view(values@) =~= Seq::empty());
    }
    loop
        invariant
            at <= i <= input@.len(),
            parameters_from(input@, at, Seq::empty()) == parameters_from(
                input@,
                i,
                parameters_view(values@),
            ),
        decreases input@.len() - i,
    {
        let start = sp(input, i);
        match parse_value(input, start) {
            Ok((end, item)) => {
                let ghost before = values@;
                let ghost read = (item.0@, item.1@);
                values.push(item);
                proof {
                    assert(parameters_view(values@) =~= parameters_view(before).push(read));
                }
                i = end;
            },
            Err(ParseError::Error) => {
                return Ok((i, values));
            },
            Err(e) => {
                return Err(e);
            },
        }
    }
}

/// What reading a named statement gives: the word for its kind, then, with
/// white space allowed round it and inside the quotes, the name of its
/// variety, which may be empty, and its parameters. Once the kind is read
/// everything else has to follow, or reading fails for good.
pub open spec fn named_token_at(input: Seq<u8>, at: usize) -> Result<
    (usize, NamedTokenView),
    ParseError,
> {
    match named_token_type_at(input, at) {
        Ok((after_type, object_type)) => match byte_at(input, sp_at(input, after_type), QUOTE) {
            Ok(opened) => match byte_at(
                input,
                sp_at(
                    input,
                    run_end(input, sp_at(input, opened) as int, ByteClass::NotQuote) as usize,
                ),
                QUOTE,
            ) {
                Ok(closed) => match parameters_from(input, closed, Seq::empty()) {
                    Ok((end, values)) => Ok(
                        (
                            end,
                            NamedTokenView {
                                internal_type: input.subrange(
                                    sp_at(input, opened) as int,
                                    run_end(input, sp_at(input, opened) as int, ByteClass::NotQuote),
                                ),
                                values,
                                object_type,
                            },
                        ),
                    ),
                    Err(e) => Err(e),
                },
                Err(_) => Err(ParseError::Failure),
            },
            Err(_) => Err(ParseError::Failure),
        },
        Err(e) => Err(e),
    }
}

/// Reads a named statement.
pub fn parse_named_token(input: &[u8], at: usize) -> (out: Result<(usize, NamedToken), ParseError>)
    requires
        at <= input@.len(),
    ensures
        match out {
            Ok((end, token)) => named_token_at(input@, at) == Ok::<
                (usize, NamedTokenView),
                ParseError,
            >((end, token@)) && at < end <= input@.len(),
            Err(e) => named_token_at(input@, at) == Err::<(usize, NamedTokenView), ParseError>(e),
        },
{
    let (after_type, object_type) = parse_named_token_type(input, at)?;
    let before_quote = sp(input, after_type);
    let opened = match byte(input, before_quote, QUOTE) {
        Ok(opened) => opened,
        Err(_) => {
            return Err(ParseError::Failure);
        },
    };
    let from = sp(input, opened);
    let to = take_while(input, from, ByteClass::NotQuote);
    let closed = match byte(input, sp(input, to), QUOTE) {
        Ok(closed) => closed,
        Err(_) => {
            return Err(ParseError::Failure);
        },
    };
    let (end, values) = parameters(input, closed)?;
    Ok((end, NamedToken { internal_type: copy_text(input, from, to), values, object_type }))
}

/// What reading further named statements gives, each after white space,
/// for as long as there are any, when `found` have been read up to `at`.
pub open spec fn named_tokens_from(input: Seq<u8>, at: usize, found: Seq<NamedTokenView>) -> Result<
    (usize, Seq<NamedTokenView>),
    ParseError,
>
    decreases input.len() - at,
{
    match named_token_at(input, sp_at(input, at)) {
        Ok((end, token)) => if at < end <= input.len() {
            named_tokens_from(input, end, found.push(token))
        } else {
            Err(ParseError::Failure)
        },
        Err(ParseError::Error) => Ok((at, found)),
        Err(e) => Err(e),
    }
}

/// What reading named statements gives, each after white space: one at
/// least, and then for as long as there are any.
pub open spec fn named_tokens_at(input: Seq<u8>, at: usize) -> Result<
    (usize, Seq<NamedTokenView>),
    ParseError,
> {
    match named_token_at(input, sp_at(input, at)) {
        Ok((end, token)) => named_tokens_from(input, end, seq![token]),
        Err(e) => Err(e),
    }
}

/// Reads named statements, each after white space: one at least, and then
/// for as long as there are any.
pub fn parse_named_token_many(input: &[u8], at: usize) -> (out: Result<
    (usize, Vec<NamedToken>),
    ParseError,
>)
    requires
        at <= input@.len(),
    ensures
        match out {
            Ok((end, tokens)) => named_tokens_at(input@, at) == Ok::<
                (usize, Seq<NamedTokenView>),
                ParseError,
            >((end, named_tokens_view(tokens@))) && at < end <= input@.len() && tokens@.len() > 0,
            Err(e) => named_tokens_at(input@, at) == Err::<
                (usize, Seq<NamedTokenView>),
                ParseError,
            >(e),
        },
{
    let mut tokens: Vec<NamedToken> = Vec::new();
    let (first_end, first) = parse_named_token(input, sp(input, at))?;
    let ghost first_read = first@;
    tokens.push(first);
    proof {
        assert(named_tokens_view(tokens@) =~= seq![first_read]);
    }
    let mut i = first_end;
    loop
        invariant
            at < i <= input@.len(),
            tokens@.len() > 0,
            named_tokens_at(input@, at) == named_tokens_from(
                input@,
                i,
                named_tokens_view(tokens@),
            ),
        decreases input@.len() - i,
    {
        let start = sp(input, i);
        match parse_named_token(input, start) {
            Ok((end, token)) => {
                let ghost before = tokens@;
                let ghost read = token@;
                tokens.push(token);
                proof {
                    assert(named_tokens_view(tokens@) =~= named_tokens_view(before).push(read));
                }
                i = end;
            },
            Err(ParseError::Error) => {
                return Ok((i, tokens));
            },
            Err(e) => {
                return Err(e);
            },
        }
    }
}

/// What reading a word and the white space behind it gives.
pub open spec fn word_and_blank_at(input: Seq<u8>, at: usize, word: Seq<u8>) -> Result<
    usize,
    ParseError,
> {
    match tag_at(input, at, word) {
        Ok(after) => Ok(sp_at(input, after)),
        Err(e) => Err(e),
    }
}

/// Reads a word and the white space behind it.
pub fn word_and_blank(input: &[u8], at: usize, word: &[u8]) -> (out: Result<usize, ParseError>)
    requires
        at <= input@.len(),
    ensures
        out == word_and_blank_at(input@, at, word@),
        out matches Ok(end) ==> at + word@.len() <= end <= input@.len(),
        out matches Err(e) ==> e == ParseError::Error,
{
    let after = tag(input, at, word)?;
    Ok(sp(input, after))
}

/// What reading a word and sixteen numbers in brackets gives: the place
/// behind the closing bracket and the numbers. Any other count of numbers
/// is invalid.
pub open spec fn matrix_at(input: Seq<u8>, at: usize, word: Seq<u8>) -> Result<
    (usize, Seq<Scalar>),
    ParseError,
> {
    match word_and_blank_at(input, at, word) {
        Ok(start) => match bracketed_doubles_at(input, start) {
            Ok((end, numbers)) => if numbers.len() == 16 {
                Ok((end, numbers))
            } else {
                Err(ParseError::Invalid)
            },
            Err(e) => Err(e),
        },
        Err(e) => Err(e),
    }
}

/// What reading a `Transform` statement gives.
pub open spec fn transform_at(input: Seq<u8>, at: usize) -> Result<(usize, TokenView), ParseError> {
    match matrix_at(input, at, "Transform".spec_bytes()) {
        Ok((end, numbers)) => Ok((end, TokenView::Transform(numbers))),
        Err(e) => Err(e),
    }
}

/// Reads `Transform` and the sixteen numbers of a matrix in brackets. Any
/// other count of numbers is invalid.
pub fn transform(input: &[u8], at: usize) -> (out: Result<(usize, Token), ParseError>)
    requires
        at <= input@.len(),
    ensures
        token_read(out) == transform_at(input@, at),
        out matches Ok((end, token)) ==> at < end <= input@.len(),
{
    let start = word_and_blank(input, at, "Transform".as_bytes())?;
    let (end, numbers) = bracketed_doubles(input, start)?;
    if numbers.len() != 16 {
        return Err(ParseError::Invalid);
    }
    Ok((end, Token::Transform(numbers)))
}

/// What reading a `ConcatTransform` statement gives.
pub open spec fn concat_transform_at(input: Seq<u8>, at: usize) -> Result<
    (usize, TokenView),
    ParseError,
> {
    match matrix_at(input, at, "ConcatTransform".spec_bytes()) {
        Ok((end, numbers)) => Ok((end, TokenView::ConcatTransform(numbers))),
        Err(e) => Err(e),
    }
}

/// Reads `ConcatTransform` and the sixteen numbers of a matrix in brackets.
/// Any other count of numbers is invalid.
pub fn concat_transform(input: &[u8], at: usize) -> (out: Result<(usize, Token), ParseError>)
    requires
        at <= input@.len(),
    ensures
        token_read(out) == concat_transform_at(input@, at),
        out matches Ok((end, token)) ==> at < end <= input@.len(),
{
    let start = word_and_blank(input, at, "ConcatTransform".as_bytes())?;
    let (end, numbers) = bracketed_doubles(input, start)?;
    if numbers.len() != 16 {
        return Err(ParseError::Invalid);
    }
    Ok((end, Token::ConcatTransform(numbers)))
}

/// What reading an `ActiveTransform` statement gives: the word and a run
/// of letters.
pub open spec fn active_transform_at(input: Seq<u8>, at: usize) -> Result<
    (usize, TokenView),
    ParseError,
> {
    match word_and_blank_at(input, at, "ActiveTransform".spec_bytes()) {
        Ok(start) => match run1_at(input, start, ByteClass::Letter) {
            Ok(end) => Ok(
                (end, TokenView::ActiveTransform(input.subrange(start as int, end as int))),
            ),
            Err(e) => Err(e),
        },
        Err(e) => Err(e),
    }
}

/// Reads `ActiveTransform` and a run of letters.
pub fn active_transform(input: &[u8], at: usize) -> (out: Result<(usize, Token), ParseError>)
    requires
        at <= input@.len(),
    ensures
        token_read(out) == active_transform_at(input@, at),
        out matches Ok((end, token)) ==> at < end <= input@.len(),
        out matches Err(e) ==> e == ParseError::Error,
{
    let start = word_and_blank(input, at, "ActiveTransform".as_bytes())?;
    let end = take_while1(input, start, ByteClass::Letter)?;
    Ok((end, Token::ActiveTransform(copy_text(input, start, end))))
}

/// What reading a `Texture` statement gives: the word, three texts in
/// quotes (a name, a type and a class) and parameters.
pub open spec fn texture_at(input: Seq<u8>, at: usize) -> Result<(usize, TokenView), ParseError> {
    match word_and_blank_at(input, at, "Texture".spec_bytes()) {
        Ok(start) => match quoted_at(input, start) {
            Ok((after_name, name)) => match quoted_at(input, sp_at(input, after_name)) {
                Ok((after_type, t)) => match quoted_at(input, sp_at(input, after_type)) {
                    Ok((after_class, class)) => match parameters_from(
                        input,
                        after_class,
                        Seq::empty(),
                    ) {
                        Ok((end, values)) => Ok(
                            (
                                end,
                                TokenView::Texture {
                                    name: input.subrange(name.0 as int, name.1 as int),
                                    t: input.subrange(t.0 as int, t.1 as int),
                                    class: input.subrange(class.0 as int, class.1 as int),
                                    values,
                                },
                            ),
                        ),
                        Err(e) => Err(e),
                    },
                    Err(e) => Err(e),
                },
                Err(e) => Err(e),
            },
            Err(e) => Err(e),
        },
        Err(e) => Err(e),
    }
}

/// Reads `Texture`, three texts in quotes (a name, a type and a class) and
/// parameters.
pub fn texture(input: &[u8], at: usize) -> (out: Result<(usize, Token), ParseError>)
    requires
        at <= input@.len(),
    ensures
        token_read(out) == texture_at(input@, at),
        out matches Ok((end, token)) ==> at < end <= input@.len(),
{
    let start = word_and_blank(input, at, "Texture".as_bytes())?;
    let (after_name, name) = quoted(input, start)?;
    let (after_type, t) = quoted(input, sp(input, after_name))?;
    let (after_class, class) = quoted(input, sp(input, after_type))?;
    let (end, values) = parameters(input, after_class)?;
    Ok(
        (
            end,
            Token::Texture {
                name: copy_text(input, name.0, name.1),
                t: copy_text(input, t.0, t.1),
                class: copy_text(input, class.0, class.1),
                values,
            },
        ),
    )
}

/// What reading further doubles gives, each after white space, for as long
/// as there are any, when `found` have been read up to `at`. A double that
/// takes up no room is an error.
pub open spec fn more_doubles_from(input: Seq<u8>, at: usize, found: Seq<Scalar>) -> Result<
    (usize, Seq<Scalar>),
    ParseError,
>
    decreases input.len() - at,
{
    match double_at(input, sp_at(input, at)) {
        Ok((end, number)) => if at < end <= input.len() {
            more_doubles_from(input, end, found.push(number))
        } else {
            Err(ParseError::Error)
        },
        Err(ParseError::Error) => Ok((at, found)),
        Err(e) => Err(e),
    }
}

/// What reading doubles gives, each after white space: one at least, and
/// then for as long as there are any.
pub open spec fn doubles1_at(input: Seq<u8>, at: usize) -> Result<
    (usize, Seq<Scalar>),
    ParseError,
> {
    match double_at(input, sp_at(input, at)) {
        Ok((end, number)) => if at <= end <= input.len() {
            more_doubles_from(input, end, seq![number])
        } else {
            Err(ParseError::Error)
        },
        Err(e) => Err(e),
    }
}

/// Reads doubles, each after white space: one at least, and then for as
/// long as there are any.
pub fn doubles1(input: &[u8], at: usize) -> (out: Result<(usize, Vec<Scalar>), ParseError>)
    requires
        at <= input@.len(),
    ensures
        crate::parser::value::list_read(out) == doubles1_at(input@, at),
        out matches Ok((end, numbers)) ==> at <= end <= input@.len() && numbers@.len() > 0,
        out matches Err(e) ==> e != ParseError::Invalid,
{
    let mut numbers: Vec<Scalar> = Vec::new();
    let (first_end, first) = double(input, sp(input, at))?;
    numbers.push(first);
    proof {
        assert(numbers@ =~= seq![first]);
    }
    let mut i = first_end;
    loop
        invariant
            at <= i <= input@.len(),
            numbers@.len() > 0,
            doubles1_at(input@, at) == more_doubles_from(input@, i, numbers@),
        decreases input@.len() - i,
    {
        let start = sp(input, i);
        match double(input, start) {
            Ok((end, number)) => {
                if end == i {
                    return Err(ParseError::Error);
                }
                numbers.push(number);
                i = end;
            },
            Err(ParseError::Error) => {
                return Ok((i, numbers));
            },
            Err(e) => {
                return Err(e);
            },
        }
    }
}

/// What reading a `LookAt` statement gives: the word and nine numbers,
/// where the eye is, what it looks at and which way is up. Any other count
/// of numbers is invalid.
pub open spec fn look_at_at(input: Seq<u8>, at: usize) -> Result<(usize, TokenView), ParseError> {
    match word_and_blank_at(input, at, "LookAt".spec_bytes()) {
        Ok(start) => match doubles1_at(input, start) {
            Ok((end, v)) => if v.len() == 9 {
                Ok(
                    (
                        end,
                        TokenView::LookAt {
                            eye: Vec3 { x: v[0], y: v[1], z: v[2] },
                            look: Vec3 { x: v[3], y: v[4], z: v[5] },
                            up: Vec3 { x: v[6], y: v[7], z: v[8] },
                        },
                    ),
                )
            } else {
                Err(ParseError::Invalid)
            },
            Err(e) => Err(e),
        },
        Err(e) => Err(e),
    }
}

/// Reads `LookAt` and nine numbers: where the eye is, what it looks at and
/// which way is up. Any other count of numbers is invalid.
pub fn look_at(input: &[u8], at: usize) -> (out: Result<(usize, Token), ParseError>)
    requires
        at <= input@.len(),
    ensures
        token_read(out) == look_at_at(input@, at),
        out matches Ok((end, token)) ==> at < end <= input@.len(),
{
    proof {
        statement_words_are_not_empty();
    }
    let start = word_and_blank(input, at, "LookAt".as_bytes())?;
    let (end, v) = doubles1(input, start)?;
    if v.len() != 9 {
        return Err(ParseError::Invalid);
    }
    Ok(
        (
            end,
            Token::LookAt {
                eye: Vec3::new(v[0], v[1], v[2]),
                look: Vec3::new(v[3], v[4], v[5]),
                up: Vec3::new(v[6], v[7], v[8]),
            },
        ),
    )
}

/// What reading three numbers gives, the second and third after white
/// space.
pub open spec fn three_doubles_at(input: Seq<u8>, at: usize) -> Result<(usize, Vec3), ParseError> {
    match double_at(input, at) {
        Ok((after_x, x)) => match double_at(input, sp_at(input, after_x)) {
            Ok((after_y, y)) => match double_at(input, sp_at(input, after_y)) {
                Ok((end, z)) => Ok((end, Vec3 { x, y, z })),
                Err(e) => Err(e),
            },
            Err(e) => Err(e),
        },
        Err(e) => Err(e),
    }
}

/// Reads three numbers, the second and third after white space.
pub fn three_doubles(input: &[u8], at: usize) -> (out: Result<(usize, Vec3), ParseError>)
    requires
        at <= input@.len(),
    ensures
        out == three_doubles_at(input@, at),
        out matches Ok((end, vector)) ==> at <= end <= input@.len(),
        out matches Err(e) ==> e != ParseError::Invalid,
{
    let (after_x, x) = double(input, at)?;
    let (after_y, y) = double(input, sp(input, after_x))?;
    let (end, z) = double(input, sp(input, after_y))?;
    Ok((end, Vec3::new(x, y, z)))
}

/// What reading a word and three numbers gives.
pub open spec fn word_and_vector_at(input: Seq<u8>, at: usize, word: Seq<u8>) -> Result<
    (usize, Vec3),
    ParseError,
> {
    match word_and_blank_at(input, at, word) {
        Ok(start) => three_doubles_at(input, start),
        Err(e) => Err(e),
    }
}

/// What reading a `Scale` statement gives.
pub open spec fn scale_at(input: Seq<u8>, at: usize) -> Result<(usize, TokenView), ParseError> {
    match word_and_vector_at(input, at, "Scale".spec_bytes()) {
        Ok((end, by)) => Ok((end, TokenView::Scale(by))),
        Err(e) => Err(e),
    }
}

/// Reads `Scale` and three factors.
pub fn scale(input: &[u8], at: usize) -> (out: Result<(usize, Token), ParseError>)
    requires
        at <= input@.len(),
    ensures
        token_read(out) == scale_at(input@, at),
        out matches Ok((end, token)) ==> at < end <= input@.len(),
        out matches Err(e) ==> e != ParseError::Invalid,
{
    proof {
        statement_words_are_not_empty();
    }
    let start = word_and_blank(input, at, "Scale".as_bytes())?;
    let (end, factors) = three_doubles(input, start)?;
    Ok((end, Token::Scale(factors)))
}

/// What reading a `Translate` statement gives.
pub open spec fn translate_at(input: Seq<u8>, at: usize) -> Result<(usize, TokenView), ParseError> {
    match word_and_vector_at(input, at, "Translate".spec_bytes()) {
        Ok((end, by)) => Ok((end, TokenView::Translate(by))),
        Err(e) => Err(e),
    }
}

/// Reads `Translate` and three offsets.
pub fn translate(input: &[u8], at: usize) -> (out: Result<(usize, Token), ParseError>)
    requires
        at <= input@.len(),
    ensures
        token_read(out) == translate_at(input@, at),
        out matches Ok((end, token)) ==> at < end <= input@.len(),
        out matches Err(e) ==> e != ParseError::Invalid,
{
    proof {
        statement_words_are_not_empty();
    }
    let start = word_and_blank(input, at, "Translate".as_bytes())?;
    let (end, offsets) = three_doubles(input, start)?;
    Ok((end, Token::Translate(offsets)))
}

/// What reading a `Rotate` statement gives: the word, an angle and the
/// three components of an axis.
pub open spec fn rotate_at(input: Seq<u8>, at: usize) -> Result<(usize, TokenView), ParseError> {
    match word_and_blank_at(input, at, "Rotate".spec_bytes()) {
        Ok(start) => match double_at(input, start) {
            Ok((after_angle, angle)) => match three_doubles_at(input, sp_at(input, after_angle)) {
                Ok((end, axis)) => Ok((end, TokenView::Rotate { angle, axis })),
                Err(e) => Err(e),
            },
            Err(e) => Err(e),
        },
        Err(e) => Err(e),
    }
}

/// Reads `Rotate`, an angle and the three components of an axis.
pub fn rotate(input: &[u8], at: usize) -> (out: Result<(usize, Token), ParseError>)
    requires
        at <= input@.len(),
    ensures
        token_read(out) == rotate_at(input@, at),
        out matches Ok((end, token)) ==> at < end <= input@.len(),
        out matches Err(e) ==> e != ParseError::Invalid,
{
    proof {
        statement_words_are_not_empty();
    }
    let start = word_and_blank(input, at, "Rotate".as_bytes())?;
    let (after_angle, angle) = double(input, start)?;
    let (end, axis) = three_doubles(input, sp(input, after_angle))?;
    Ok((end, Token::Rotate { angle, axis }))
}

/// What reading a `MediumInterface` statement gives: the word and two
/// texts in quotes, either of which may be empty, the medium inside and
/// the medium outside.
pub open spec fn medium_interface_at(input: Seq<u8>, at: usize) -> Result<
    (usize, TokenView),
    ParseError,
> {
    match word_and_blank_at(input, at, "MediumInterface".spec_bytes()) {
        Ok(start) => match quoted_or_empty_at(input, sp_at(input, start)) {
            Ok((after_inside, inside)) => match quoted_or_empty_at(
                input,
                sp_at(input, after_inside),
            ) {
                Ok((end, outside)) => Ok(
                    (
                        end,
                        TokenView::MediumInterface {
                            inside: input.subrange(inside.0 as int, inside.1 as int),
                            outside: input.subrange(outside.0 as int, outside.1 as int),
                        },
                    ),
                ),
                Err(e) => Err(e),
            },
            Err(e) => Err(e),
        },
        Err(e) => Err(e),
    }
}

/// Reads `MediumInterface` and two texts in quotes, either of which may be
/// empty: the medium inside and the medium outside.
pub fn medium_interface(input: &[u8], at: usize) -> (out: Result<(usize, Token), ParseError>)
    requires
        at <= input@.len(),
    ensures
        token_read(out) == medium_interface_at(input@, at),
        out matches Ok((end, token)) ==> at < end <= input@.len(),
        out matches Err(e) ==> e == ParseError::Error,
{
    let start = word_and_blank(input, at, "MediumInterface".as_bytes())?;
    let (after_inside, inside) = quoted_or_empty(input, sp(input, start))?;
    let (end, outside) = quoted_or_empty(input, sp(input, after_inside))?;
    Ok(
        (
            end,
            Token::MediumInterface {
                inside: copy_text(input, inside.0, inside.1),
                outside: copy_text(input, outside.0, outside.1),
            },
        ),
    )
}

/// Of two readings the first, unless it ended in an error that lets
/// another parser try: then the second.
pub open spec fn or_else<T>(first: Result<T, ParseError>, second: Result<T, ParseError>) -> Result<
    T,
    ParseError,
> {
    match first {
        Err(ParseError::Error) => second,
        other => other,
    }
}

/// What reading one statement gives. The kinds of statement are tried in a
/// fixed order: named statements, keywords, `Transform`, `Texture`,
/// `MediumInterface`, `LookAt`, `Scale`, `ConcatTransform`, `Translate`,
/// `Rotate` and `ActiveTransform`. The first that reads something decides;
/// where one fails for good or finds the text invalid, no other is tried.
pub open spec fn token_at(input: Seq<u8>, at: usize) -> Result<(usize, TokenView), ParseError> {
    or_else(
        match named_token_at(input, at) {
            Ok((end, token)) => Ok((end, TokenView::NamedToken(token))),
            Err(e) => Err(e),
        },
        or_else(
            match keyword_at(input, at) {
                Ok((end, keyword)) => Ok((end, TokenView::Keyword(keyword))),
                Err(e) => Err(e),
            },
            or_else(
                transform_at(input, at),
                or_else(
                    texture_at(input, at),
                    or_else(
                        medium_interface_at(input, at),
                        or_else(
                            look_at_at(input, at),
                            or_else(
                                scale_at(input, at),
                                or_else(
                                    concat_transform_at(input, at),
                                    or_else(
                                        translate_at(input, at),
                                        or_else(
                                            rotate_at(input, at),
                                            active_transform_at(input, at),
                                        ),
                                    ),
                                ),
                            ),
                        ),
                    ),
                ),
            ),
        ),
    )
}

/// Reads one statement.
pub fn parse_token(input: &[u8], at: usize) -> (out: Result<(usize, Token), ParseError>)
    requires
        at <= input@.len(),
    ensures
        token_read(out) == token_at(input@, at),
        out matches Ok((end, token)) ==> at < end <= input@.len(),
{
    match parse_named_token(input, at) {
        Ok((end, token)) => {
            return Ok((end, Token::NamedToken(token)));
        },
        Err(ParseError::Error) => {},
        Err(e) => {
            return Err(e);
        },
    }
    match parse_keyword(input, at) {
        Ok((end, keyword)) => {
            proof {
                keyword_is_not_empty(keyword);
            }
            return Ok((end, Token::Keyword(keyword)));
        },
        Err(_) => {},
    }
    match transform(input, at) {
        Ok(read) => {
            return Ok(read);
        },
        Err(ParseError::Error) => {},
        Err(e) => {
            return Err(e);
        },
    }
    match texture(input, at) {
        Ok(read) => {
            return Ok(read);
        },
        Err(ParseError::Error) => {},
        Err(e) => {
            return Err(e);
        },
    }
    match medium_interface(input, at) {
        Ok(read) => {
            return Ok(read);
        },
        Err(_) => {},
    }
    match look_at(input, at) {
        Ok(read) => {
            return Ok(read);
        },
        Err(ParseError::Error) => {},
        Err(e) => {
            return Err(e);
        },
    }
    match scale(input, at) {
        Ok(read) => {
            return Ok(read);
        },
        Err(ParseError::Error) => {},
        Err(e) => {
            return Err(e);
        },
    }
    match concat_transform(input, at) {
        Ok(read) => {
            return Ok(read);
        },
        Err(ParseError::Error) => {},
        Err(e) => {
            return Err(e);
        },
    }
    match translate(input, at) {
        Ok(read) => {
            return Ok(read);
        },
        Err(ParseError::Error) => {},
        Err(e) => {
            return Err(e);
        },
    }
    match rotate(input, at) {
        Ok(read) => {
            return Ok(read);
        },
        Err(ParseError::Error) => {},
        Err(e) => {
            return Err(e);
        },
    }
    active_transform(input, at)
}

/// The words that open a statement of numbers are not empty.
proof fn statement_words_are_not_empty()
    ensures
        "LookAt".spec_bytes().len() > 0,
        "Scale".spec_bytes().len() > 0,
        "Translate".spec_bytes().len() > 0,
        "Rotate".spec_bytes().len() > 0,
{
    reveal_strlit("LookAt");
    reveal_strlit("Scale");
    reveal_strlit("Translate");
    reveal_strlit("Rotate");
    vstd::string::is_ascii_spec_bytes("LookAt");
    vstd::string::is_ascii_spec_bytes("Scale");
    vstd::string::is_ascii_spec_bytes("Translate");
    vstd::string::is_ascii_spec_bytes("Rotate");
}

/// No keyword is the empty word.
proof fn keyword_is_not_empty(keyword: Keyword)
    ensures
        keyword.text().len() > 0,
{
    reveal_strlit("AttributeBegin");
    reveal_strlit("AttributeEnd");
    reveal_strlit("Identity");
    reveal_strlit("ObjectEnd");
    reveal_strlit("ReverseOrientation");
    reveal_strlit("TransformBegin");
    reveal_strlit("TransformEnd");
    reveal_strlit("WorldBegin");
    reveal_strlit("WorldEnd");
    vstd::string::is_ascii_spec_bytes("AttributeBegin");
    vstd::string::is_ascii_spec_bytes("AttributeEnd");
    vstd::string::is_ascii_spec_bytes("Identity");
    vstd::string::is_ascii_spec_bytes("ObjectEnd");
    vstd::string::is_ascii_spec_bytes("ReverseOrientation");
    vstd::string::is_ascii_spec_bytes("TransformBegin");
    vstd::string::is_ascii_spec_bytes("TransformEnd");
    vstd::string::is_ascii_spec_bytes("WorldBegin");
    vstd::string::is_ascii_spec_bytes("WorldEnd");
}

/// What reading statements gives, each after white space, for as long as
/// there are any, when `found` have been read up to `at`; behind the last
/// statement white space is skipped once more.
pub open spec fn tokens_from(input: Seq<u8>, at: usize, found: Seq<TokenView>) -> Result<
    (usize, Seq<TokenView>),
    ParseError,
>
    decreases input.len() - at,
{
    match token_at(input, sp_at(input, at)) {
        Ok((end, token)) => if at < end <= input.len() {
            tokens_from(input, end, found.push(token))
        } else {
            Err(ParseError::Error)
        },
        Err(ParseError::Error) => Ok((sp_at(input, at), found)),
        Err(e) => Err(e),
    }
}

/// What reading a scene gives: white space, then statements.
pub open spec fn scene_at(input: Seq<u8>, at: usize) -> Result<(usize, Seq<TokenView>), ParseError> {
    tokens_from(input, sp_at(input, at), Seq::empty())
}

/// Reads a scene: white space, then statements, each after white space, for
/// as long as there are any, then white space. What is left unread starts
/// at the place that is handed back; it does not start with white space or
/// a comment, and no statement can be read there.
pub fn parse(input: &[u8], at: usize) -> (out: Result<(usize, Vec<Token>), ParseError>)
    requires
        at <= input@.len(),
    ensures
        match out {
            Ok((end, tokens)) => {
                &&& scene_at(input@, at) == Ok::<(usize, Seq<TokenView>), ParseError>(
                    (end, tokens_view(tokens@)),
                )
                &&& at <= end <= input@.len()
                &&& end == blank_end(input@, end as int)
                &&& token_at(input@, end) == Err::<(usize, TokenView), ParseError>(
                    ParseError::Error,
                )
            },
            Err(e) => scene_at(input@, at) == Err::<(usize, Seq<TokenView>), ParseError>(e) && e
                != ParseError::Error,
        },
{
    let mut tokens: Vec<Token> = Vec::new();
    let mut i = sp(input, at);
    proof {
        assert(tokens_view(tokens@) =~= Seq::empty());
    }
    loop
        invariant
            at <= i <= input@.len(),
            scene_at(input@, at) == tokens_from(input@, i, tokens_view(tokens@)),
        decreases input@.len() - i,
    {
        let start = sp(input, i);
        match parse_token(input, start) {
            Ok((end, token)) => {
                let ghost before = tokens@;
                let ghost read = token@;
                tokens.push(token);
                proof {
                    assert(tokens_view(tokens@) =~= tokens_view(before).push(read));
                }
                i = end;
            },
            Err(ParseError::Error) => {
                proof {
                    blank_end_is_idempotent(input@, i as int);
                }
                return Ok((start, tokens));
            },
            Err(e) => {
                return Err(e);
            },
        }
    }
}

/// Behind white space and comments no white space and no comment follows.
pub proof fn blank_end_is_idempotent(input: Seq<u8>, at: int)
    requires
        0 <= at <= input.len(),
    ensures
        blank_end(input, blank_end(input, at)) == blank_end(input, at),
    decreases input.len() - at,
{
    let after_blanks = run_end(input, at, ByteClass::Blank);
    run_end_is_in_range(input, at, ByteClass::Blank);
    blank_end_skips_comments(input, at);
    if after_blanks < input.len() && input[after_blanks] == HASH {
        run_end_is_in_range(input, after_blanks + 1, ByteClass::NotNewline);
        blank_end_is_idempotent(input, run_end(input, after_blanks + 1, ByteClass::NotNewline));
    } else {
        blank_end_skips_comments(input, after_blanks);
        run_end_is_in_range(input, after_blanks, ByteClass::Blank);
        if after_blanks < input.len() {
            assert(run_end(input, after_blanks, ByteClass::Blank) == after_blanks);
        }
    }
}

} // verus!
