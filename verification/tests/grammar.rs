use nom::{
    bytes::complete::tag,
    character::complete::char,
    error::{Error, ErrorKind},
    number::complete::double,
    sequence::{delimited, preceded},
    IResult,
};
use raytracer::parser::token::{parse, parse_named_token_many, parse_token, NamedToken, Token};
use raytracer::parser::value::{parse_value, Value};
use raytracer::parser::{sp, ParseError};
use raytracer::scalar::Scalar;
use raytracer::vec3::Vec3;
use std::collections::BTreeMap;

// The grammar once more, written with parser combinators, to hold the
// library's readers against.

type Read<'a, T> = IResult<&'a str, T, Error<&'a str>>;

fn meaningless<'a, T>(at: &'a str) -> Read<'a, T> {
    Err(nom::Err::Failure(Error { input: at, code: ErrorKind::Fail }))
}

fn blank(i: &str) -> Read<&str> {
    let chars = " \t\r\n";
    let (i, v) = nom::bytes::complete::take_while(move |c| chars.contains(c))(i)?;
    match tag::<&str, &str, Error<&str>>("#")(i) {
        Ok((i, _)) => {
            let (i, _) = nom::bytes::complete::take_while(move |c| c != '\n')(i)?;
            blank(i)
        }
        Err(_) => Ok((i, v)),
    }
}

fn text_or_empty(i: &str) -> Read<&str> {
    nom::bytes::complete::take_while(move |c| c != '"')(i)
}

fn text(i: &str) -> Read<&str> {
    nom::bytes::complete::take_while1(move |c| c != '"')(i)
}

fn text_to_space(i: &str) -> Read<&str> {
    nom::bytes::complete::take_while1(move |c| c != ' ')(i)
}

fn bits(numbers: &[f64]) -> String {
    let all: Vec<String> = numbers.iter().map(|n| format!("{:016x}", n.to_bits())).collect();
    all.join(",")
}

fn bracketed_or_bare<'a, O, F1, F2>(f1: F1, f2: F2) -> impl FnMut(&'a str) -> Read<'a, O>
where
    F1: nom::Parser<&'a str, O, Error<&'a str>>,
    F2: nom::Parser<&'a str, O, Error<&'a str>>,
{
    nom::branch::alt((
        delimited(preceded(char('['), blank), f1, preceded(blank, char(']'))),
        f2,
    ))
}

fn numbers_in_brackets(i: &str) -> Read<Vec<f64>> {
    preceded(
        blank,
        delimited(
            preceded(char('['), blank),
            nom::multi::many0(preceded(blank, double)),
            preceded(blank, char(']')),
        ),
    )(i)
}

/// A parameter, rendered as its name and a line that spells its value.
fn parameter(i: &str) -> Read<(String, String)> {
    let (i, (t, n)) = delimited(
        char('"'),
        nom::sequence::tuple((text_to_space, preceded(blank, text))),
        char('"'),
    )(i)?;

    let (i, v) = match t {
        "integer" => {
            let (i, v) = preceded(
                blank,
                bracketed_or_bare(
                    nom::multi::many0(preceded(blank, nom::character::complete::digit1)),
                    nom::multi::many0(preceded(blank, nom::character::complete::digit1)),
                ),
            )(i)?;
            let mut all = vec![];
            for digits in v {
                match digits.parse::<i64>() {
                    Ok(n) => all.push(n.to_string()),
                    Err(_) => return meaningless(i),
                }
            }
            (i, format!("integer {}", all.join(",")))
        }
        "bool" | "boolean" => {
            let (i, v) = preceded(
                blank,
                bracketed_or_bare(
                    nom::branch::alt((
                        delimited(char('"'), nom::character::complete::alpha1, char('"')),
                        nom::character::complete::alpha1,
                    )),
                    nom::branch::alt((
                        delimited(char('"'), nom::character::complete::alpha1, char('"')),
                        nom::character::complete::alpha1,
                    )),
                ),
            )(i)?;
            match v {
                "false" => (i, String::from("boolean false")),
                "true" => (i, String::from("boolean true")),
                _ => return meaningless(i),
            }
        }
        "point" | "normal" | "vector" | "Vec3" | "point3" => {
            let (i, v) = numbers_in_brackets(i)?;
            if v.len() % 3 != 0 {
                return meaningless(i);
            }
            (i, format!("vec3 {}", bits(&v)))
        }
        "vector2" | "point2" => {
            let (i, v) = numbers_in_brackets(i)?;
            if v.len() % 2 != 0 {
                return meaningless(i);
            }
            (i, format!("vec2 {}", bits(&v)))
        }
        "float" => {
            let (i, v) = preceded(
                blank,
                bracketed_or_bare(
                    nom::multi::many0(preceded(blank, double)),
                    nom::multi::many0(preceded(blank, double)),
                ),
            )(i)?;
            (i, format!("float {}", bits(&v)))
        }
        "rgb" | "color" => {
            let (i, (r, g, b)) = preceded(
                blank,
                delimited(
                    preceded(char('['), blank),
                    nom::sequence::tuple((double, preceded(blank, double), preceded(blank, double))),
                    preceded(blank, char(']')),
                ),
            )(i)?;
            (i, format!("rgb {}", bits(&[r, g, b])))
        }
        "blackbody" => {
            let (i, (temperature, scale)) = preceded(
                blank,
                delimited(
                    preceded(char('['), blank),
                    nom::branch::alt((
                        nom::sequence::tuple((double, preceded(blank, double))),
                        nom::combinator::map(double, |f| (f, 1.0)),
                    )),
                    preceded(blank, char(']')),
                ),
            )(i)?;
            (i, format!("blackbody {}", bits(&[temperature, scale])))
        }
        "string" | "texture" | "spectrum" => {
            let (i, v) = preceded(
                blank,
                bracketed_or_bare(
                    delimited(char('"'), text, char('"')),
                    delimited(char('"'), text, char('"')),
                ),
            )(i)?;
            (i, format!("{} {:?}", t, v))
        }
        _ => return meaningless(i),
    };

    Ok((i, (n.to_owned(), v)))
}

fn parameters(i: &str) -> Read<BTreeMap<String, String>> {
    nom::combinator::cut(nom::multi::fold_many0(
        preceded(blank, parameter),
        BTreeMap::new,
        |mut acc: BTreeMap<String, String>, item: (String, String)| {
            acc.insert(item.0, item.1);
            acc
        },
    ))(i)
}

const KEYWORDS: [&str; 9] = [
    "AttributeBegin",
    "AttributeEnd",
    "Identity",
    "ReverseOrientation",
    "TransformBegin",
    "TransformEnd",
    "WorldBegin",
    "WorldEnd",
    "ObjectEnd",
];

const KINDS: [&str; 20] = [
    "Accelerator",
    "AreaLightSource",
    "Camera",
    "CoordSysTransform",
    "CoordSys",
    "Film",
    "Integrator",
    "LightSource",
    "MakeNamedMaterial",
    "MakeNamedMedium",
    "Material",
    "NamedMaterial",
    "Include",
    "PixelFilter",
    "Sampler",
    "Shape",
    "ObjectInstance",
    "ObjectBegin",
    "SurfaceIntegrator",
    "VolumeIntegrator",
];

fn first_of<'a>(words: &[&'static str], i: &'a str) -> Read<'a, &'static str> {
    for &word in words {
        if let Ok((rest, _)) = tag::<&str, &str, Error<&str>>(word)(i) {
            return Ok((rest, word));
        }
    }
    Err(nom::Err::Error(Error { input: i, code: ErrorKind::Alt }))
}

fn named(i: &str) -> Read<String> {
    let (i, kind) = first_of(&KINDS, i)?;
    let (i, variety) = nom::combinator::cut(preceded(
        blank,
        delimited(preceded(char('"'), blank), text_or_empty, preceded(blank, char('"'))),
    ))(i)?;
    let (i, values) = parameters(i)?;
    Ok((i, format!("{} {:?} {:?}", kind, variety, values)))
}

fn matrix<'a>(word: &'static str, i: &'a str) -> Read<'a, String> {
    let (i, v) = preceded(
        preceded(tag(word), blank),
        delimited(
            preceded(char('['), blank),
            nom::multi::many0(preceded(blank, double)),
            preceded(blank, char(']')),
        ),
    )(i)?;
    if v.len() != 16 {
        return meaningless(i);
    }
    Ok((i, format!("{} {}", word, bits(&v))))
}

fn statement(i: &str) -> Read<String> {
    nom::branch::alt((
        named,
        nom::combinator::map(|i| first_of(&KEYWORDS, i), |word| format!("keyword {}", word)),
        |i| matrix("Transform", i),
        |i| {
            let (i, _) = preceded(tag("Texture"), blank)(i)?;
            let (i, (name, t, class)) = nom::sequence::tuple((
                delimited(char('"'), text, char('"')),
                preceded(blank, delimited(char('"'), text, char('"'))),
                preceded(blank, delimited(char('"'), text, char('"'))),
            ))(i)?;
            let (i, values) = parameters(i)?;
            Ok((i, format!("Texture {:?} {:?} {:?} {:?}", name, t, class, values)))
        },
        |i| {
            let (i, _) = preceded(tag("MediumInterface"), blank)(i)?;
            let (i, (inside, outside)) = preceded(
                blank,
                nom::sequence::tuple((
                    delimited(char('"'), text_or_empty, char('"')),
                    preceded(blank, delimited(char('"'), text_or_empty, char('"'))),
                )),
            )(i)?;
            Ok((i, format!("MediumInterface {:?} {:?}", inside, outside)))
        },
        |i| {
            let (i, _) = preceded(tag("LookAt"), blank)(i)?;
            let (i, v) = nom::multi::many1(preceded(blank, double))(i)?;
            if v.len() != 9 {
                return meaningless(i);
            }
            Ok((i, format!("LookAt {}", bits(&v))))
        },
        |i| {
            let (i, _) = preceded(tag("Scale"), blank)(i)?;
            let (i, (a, b, c)) =
                nom::sequence::tuple((double, preceded(blank, double), preceded(blank, double)))(i)?;
            Ok((i, format!("Scale {}", bits(&[a, b, c]))))
        },
        |i| matrix("ConcatTransform", i),
        |i| {
            let (i, _) = preceded(tag("Translate"), blank)(i)?;
            let (i, (a, b, c)) =
                nom::sequence::tuple((double, preceded(blank, double), preceded(blank, double)))(i)?;
            Ok((i, format!("Translate {}", bits(&[a, b, c]))))
        },
        |i| {
            let (i, _) = preceded(tag("Rotate"), blank)(i)?;
            let (i, (angle, a, b, c)) = nom::sequence::tuple((
                double,
                preceded(blank, double),
                preceded(blank, double),
                preceded(blank, double),
            ))(i)?;
            Ok((i, format!("Rotate {}", bits(&[angle, a, b, c]))))
        },
        |i| {
            let (i, v) = preceded(
                preceded(tag("ActiveTransform"), blank),
                nom::character::complete::alpha1,
            )(i)?;
            Ok((i, format!("ActiveTransform {:?}", v)))
        },
    ))(i)
}

fn scene(i: &str) -> Read<Vec<String>> {
    let (i, v) = preceded(
        blank,
        nom::multi::fold_many0(preceded(blank, statement), Vec::new, |mut acc: Vec<String>, item| {
            acc.push(item);
            acc
        }),
    )(i)?;
    let (i, _) = blank(i)?;
    Ok((i, v))
}

fn named_many(i: &str) -> Read<Vec<String>> {
    nom::multi::fold_many1(preceded(blank, named), Vec::new, |mut acc: Vec<String>, item| {
        acc.push(item);
        acc
    })(i)
}

// The library's readings, rendered the same way.

fn number(x: Scalar) -> f64 {
    f64::from_bits(x.to_bits())
}

fn vector(v: &Vec3) -> [f64; 3] {
    [number(v.x), number(v.y), number(v.z)]
}

fn written(text: &[u8]) -> &str {
    std::str::from_utf8(text).expect("the samples are plain text")
}

fn spelled(value: &Value) -> String {
    match value {
        Value::Integer(v) => {
            format!("integer {}", v.iter().map(|n| n.to_string()).collect::<Vec<_>>().join(","))
        }
        Value::Boolean(v) => format!("boolean {}", v),
        Value::Vec3(v) => {
            format!("vec3 {}", bits(&v.iter().flat_map(|p| vector(p)).collect::<Vec<_>>()))
        }
        Value::Vec2(v) => format!(
            "vec2 {}",
            bits(&v.iter().flat_map(|p| [number(p.x), number(p.y)]).collect::<Vec<_>>())
        ),
        Value::Float(v) => format!("float {}", bits(&v.iter().map(|&n| number(n)).collect::<Vec<_>>())),
        Value::RGB(c) => format!("rgb {}", bits(&[number(c.r), number(c.g), number(c.b)])),
        Value::Blackbody(b) => format!("blackbody {}", bits(&[number(b.temperature), number(b.scale)])),
        Value::String(v) => format!("string {:?}", written(v)),
        Value::Texture(v) => format!("texture {:?}", written(v)),
        Value::Spectrum(v) => format!("spectrum {:?}", written(v)),
    }
}

fn collected(values: &[(Vec<u8>, Value)]) -> BTreeMap<String, String> {
    let mut all = BTreeMap::new();
    for (name, value) in values {
        all.insert(written(name).to_owned(), spelled(value));
    }
    all
}

fn named_spelled(token: &NamedToken) -> String {
    format!("{} {:?} {:?}", written(token.object_type.word()), written(&token.internal_type), collected(&token.values))
}

fn statement_spelled(token: &Token) -> String {
    let floats = |v: &Vec<Scalar>| bits(&v.iter().map(|&n| number(n)).collect::<Vec<_>>());
    match token {
        Token::NamedToken(token) => named_spelled(token),
        Token::Keyword(keyword) => format!("keyword {}", written(keyword.word())),
        Token::Transform(v) => format!("Transform {}", floats(v)),
        Token::ConcatTransform(v) => format!("ConcatTransform {}", floats(v)),
        Token::Texture { name, t, class, values } => format!(
            "Texture {:?} {:?} {:?} {:?}",
            written(name),
            written(t),
            written(class),
            collected(values)
        ),
        Token::MediumInterface { inside, outside } => {
            format!("MediumInterface {:?} {:?}", written(inside), written(outside))
        }
        Token::LookAt { eye, look, up } => {
            format!("LookAt {}", bits(&[vector(eye), vector(look), vector(up)].concat()))
        }
        Token::Scale(by) => format!("Scale {}", bits(&vector(by))),
        Token::Translate(by) => format!("Translate {}", bits(&vector(by))),
        Token::Rotate { angle, axis } => {
            format!("Rotate {}", bits(&[vec![number(*angle)], vector(axis).to_vec()].concat()))
        }
        Token::ActiveTransform(name) => format!("ActiveTransform {:?}", written(name)),
    }
}

fn expected<T>(input: &str, read: Read<T>) -> Result<(usize, T), ParseError> {
    match read {
        Ok((rest, value)) => Ok((input.len() - rest.len(), value)),
        Err(nom::Err::Failure(e)) if e.code == ErrorKind::Fail => Err(ParseError::Invalid),
        Err(nom::Err::Failure(_)) => Err(ParseError::Failure),
        Err(_) => Err(ParseError::Error),
    }
}

// Samples: statements put together from pieces, and then damaged.

struct Dice(u64);

impl Dice {
    fn below(&mut self, bound: usize) -> usize {
        self.0 = self.0.wrapping_mul(6364136223846793005).wrapping_add(1442695040888963407);
        ((self.0 >> 33) as usize) % bound
    }

    fn pick<'a>(&mut self, from: &[&'a str]) -> &'a str {
        from[self.below(from.len())]
    }
}

const NUMBERS: [&str; 22] = [
    "0", "1", "-1", "65", "1.000000", "19.5", "-0.0130485", "1.74846e-007", "4.37114e-008", "1e2",
    "1E+3", ".5", "5.", "+2", "-0", "007", "1e", "1.5e+", "-", ".", "inf", "nan",
];
const GAPS: [&str; 9] = [" ", "  ", "\t", "\n", " # note\n", "", " ", "\r\n", " #\n "];
const TYPES: [&str; 18] = [
    "integer", "bool", "boolean", "point", "normal", "vector", "Vec3", "point3", "vector2",
    "point2", "float", "rgb", "color", "blackbody", "string", "texture", "spectrum", "colour",
];
const NAMES: [&str; 6] = ["P", "fov", "filename", "Kd", "two words", "x"];
const WORDS: [&str; 8] = ["true", "false", "\"true\"", "\"false\"", "maybe", "\"wood\"", "\"a b.png\"", "\"\""];

fn numbers(dice: &mut Dice) -> String {
    let mut out = String::new();
    for _ in 0..dice.below(7) {
        out.push_str(dice.pick(&GAPS));
        out.push_str(dice.pick(&NUMBERS));
    }
    out
}

fn some_value(dice: &mut Dice) -> String {
    let body = match dice.below(4) {
        0 => numbers(dice),
        1 => format!("{}{}", dice.pick(&GAPS), dice.pick(&WORDS)),
        2 => {
            let mut digits = String::new();
            for _ in 0..dice.below(5) {
                digits.push_str(dice.pick(&GAPS));
                digits.push_str(dice.pick(&["0", "12", "65", "1024", "9223372036854775807", "9223372036854775808", "3.5"]));
            }
            digits
        }
        _ => format!("{} {} {}", dice.pick(&NUMBERS), dice.pick(&NUMBERS), dice.pick(&NUMBERS)),
    };
    match dice.below(5) {
        0 => body,
        1 => format!("[{}", body),
        _ => format!("[{}{}]", body, dice.pick(&GAPS)),
    }
}

fn some_parameter(dice: &mut Dice) -> String {
    format!(
        "\"{}{}{}\"{}{}",
        dice.pick(&TYPES),
        dice.pick(&[" ", "  ", " \t"]),
        dice.pick(&NAMES),
        dice.pick(&GAPS),
        some_value(dice)
    )
}

fn some_statement(dice: &mut Dice) -> String {
    let mut out = String::new();
    match dice.below(12) {
        0 => out.push_str(dice.pick(&KEYWORDS)),
        1 | 2 | 3 => {
            out.push_str(dice.pick(&KINDS));
            out.push_str(dice.pick(&GAPS));
            out.push_str(dice.pick(&["\"image\"", "\"\"", "\" matte \"", "\"trianglemesh\"", "perspective", "\"open"]));
            for _ in 0..dice.below(4) {
                out.push_str(dice.pick(&GAPS));
                out.push_str(&some_parameter(dice));
            }
        }
        4 => {
            out.push_str(dice.pick(&["Transform", "ConcatTransform"]));
            out.push_str(dice.pick(&GAPS));
            out.push('[');
            let count = [16, 16, 16, 15, 17, 0][dice.below(6)];
            for _ in 0..count {
                out.push_str(dice.pick(&[" ", "\n", "  "]));
                out.push_str(dice.pick(&NUMBERS[..16]));
            }
            out.push_str(dice.pick(&[" ]", "]", ""]));
        }
        5 => {
            out.push_str("Texture");
            for _ in 0..(2 + dice.below(2)) {
                out.push_str(dice.pick(&GAPS));
                out.push_str(dice.pick(&["\"wood\"", "\"spectrum\"", "\"imagemap\"", "\"\""]));
            }
            for _ in 0..dice.below(3) {
                out.push_str(dice.pick(&GAPS));
                out.push_str(&some_parameter(dice));
            }
        }
        6 => {
            out.push_str("MediumInterface");
            for _ in 0..(1 + dice.below(2)) {
                out.push_str(dice.pick(&GAPS));
                out.push_str(dice.pick(&["\"\"", "\"fog\"", "\"in side\""]));
            }
        }
        7 => {
            out.push_str("LookAt");
            let count = [9, 9, 9, 8, 10, 0][dice.below(6)];
            for _ in 0..count {
                out.push_str(dice.pick(&[" ", "\n", "  "]));
                out.push_str(dice.pick(&NUMBERS[..16]));
            }
        }
        8 | 9 | 10 => {
            out.push_str(dice.pick(&["Scale", "Translate", "Rotate"]));
            for _ in 0..(2 + dice.below(3)) {
                out.push_str(dice.pick(&GAPS));
                out.push_str(dice.pick(&NUMBERS));
            }
        }
        _ => {
            out.push_str("ActiveTransform");
            out.push_str(dice.pick(&GAPS));
            out.push_str(dice.pick(&["All", "StartTime", "EndTime", "12", ""]));
        }
    }
    out
}

fn damaged(dice: &mut Dice, text: String) -> String {
    if text.is_empty() || dice.below(3) > 0 {
        return text;
    }
    let mut bytes = text.into_bytes();
    let at = dice.below(bytes.len());
    match dice.below(3) {
        0 => {
            bytes.remove(at);
        }
        1 => bytes.insert(at, b" \"[]#e.-1x\n"[dice.below(11)]),
        _ => bytes[at] = b" \"[]#e.-1x\n"[dice.below(11)],
    }
    String::from_utf8(bytes).expect("the samples are plain text")
}

#[test]
fn blanks_agree_with_the_grammar() {
    let mut dice = Dice(1);
    for _ in 0..3000 {
        let mut text = String::new();
        for _ in 0..dice.below(6) {
            text.push_str(dice.pick(&[" ", "\t", "\n", "\r", "#", "# a\n", "x", "#\n#", "\"", "1"]));
        }
        assert_eq!(Ok::<_, ParseError>((sp(text.as_bytes(), 0), ())), expected(&text, blank(&text).map(|(rest, _)| (rest, ()))), "{:?}", text);
    }
}

#[test]
fn parameters_agree_with_the_grammar() {
    let mut dice = Dice(2);
    let mut read = 0;
    for _ in 0..6000 {
        let sample = some_parameter(&mut dice);
        let text = damaged(&mut dice, sample);
        let ours = parse_value(text.as_bytes(), 0)
            .map(|(end, (name, value))| (end, (written(&name).to_owned(), spelled(&value))));
        assert_eq!(ours, expected(&text, parameter(&text)), "{:?}", text);
        read += ours.is_ok() as usize;
    }
    assert!(read > 1000, "{}", read);
}

#[test]
fn statements_agree_with_the_grammar() {
    let mut dice = Dice(3);
    let mut read = 0;
    for _ in 0..6000 {
        let sample = some_statement(&mut dice);
        let text = damaged(&mut dice, sample);
        let ours = parse_token(text.as_bytes(), 0).map(|(end, token)| (end, statement_spelled(&token)));
        assert_eq!(ours, expected(&text, statement(&text)), "{:?}", text);
        read += ours.is_ok() as usize;
    }
    assert!(read > 1000, "{}", read);
}

#[test]
fn scenes_agree_with_the_grammar() {
    let mut dice = Dice(4);
    let mut read = 0;
    for _ in 0..3000 {
        let mut text = String::new();
        for _ in 0..dice.below(6) {
            text.push_str(dice.pick(&GAPS));
            let sample = some_statement(&mut dice);
            text.push_str(&damaged(&mut dice, sample));
        }
        text.push_str(dice.pick(&GAPS));
        let ours = parse(text.as_bytes(), 0)
            .map(|(end, tokens)| (end, tokens.iter().map(statement_spelled).collect::<Vec<_>>()));
        assert_eq!(ours, expected(&text, scene(&text)), "{:?}", text);
        read += ours.is_ok() as usize;
        let ours = parse_named_token_many(text.as_bytes(), 0)
            .map(|(end, tokens)| (end, tokens.iter().map(named_spelled).collect::<Vec<_>>()));
        assert_eq!(ours, expected(&text, named_many(&text)), "{:?}", text);
    }
    assert!(read > 500, "{}", read);
}
