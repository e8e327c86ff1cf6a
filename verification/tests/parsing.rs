use raytracer::parser::number::{double, integer};
use raytracer::parser::token::{
    active_transform, concat_transform, look_at, lookup, medium_interface, parse,
    parse_named_token, parse_named_token_many, parse_token, rotate, scale, texture, translate,
    NamedToken, Token,
};
use raytracer::parser::value::{parse_value, BSDFFloat, Blackbody, Spectrum, Value, RGB};
use raytracer::parser::{
    parse_keyword, parse_named_token_type, sp, tag, take_while, take_while1, ByteClass, Keyword,
    NamedTokenType, ParseError,
};
use raytracer::scalar::Scalar;
use raytracer::vec2::Vec2;
use raytracer::vec3::Vec3;

fn s(x: f64) -> Scalar {
    Scalar::from_bits(x.to_bits())
}

fn f(x: Scalar) -> f64 {
    f64::from_bits(x.to_bits())
}

fn v(x: f64, y: f64, z: f64) -> Vec3 {
    Vec3::new(s(x), s(y), s(z))
}

fn floats(numbers: &[Scalar]) -> Vec<f64> {
    numbers.iter().map(|&n| f(n)).collect()
}

fn check_parsing<T: std::fmt::Debug>(
    input: &str,
    res: Result<(usize, T), ParseError>,
    verbose: bool,
) -> T {
    let (end, value) = res.expect("Error during parsing");
    if verbose {
        println!("==============================");
        println!("Parsed: {:?}", value);
        println!("==============================");
    }
    if end != input.len() {
        panic!("Parsing is not complete: {:?}", &input[end..]);
    }
    value
}

fn value_of(input: &str) -> (String, Value) {
    let (name, value) = check_parsing(input, parse_value(input.as_bytes(), 0), false);
    (String::from_utf8(name).expect("the name is text"), value)
}

#[test]
fn transform() {
    let s = "Transform [ 0.993341 -0.0130485 -0.114467 -0 -0 0.993565 -0.11326 -0 -0.115208 -0.112506 -0.98695 -0 1.33651 -11.1523 51.6855 1]";
    check_parsing(s, raytracer::parser::token::transform(s.as_bytes(), 0), true);
}

#[test]
fn value_integer() {
    let s = "\"integer maxdepth\" [ 65 ]";
    check_parsing(s, parse_value(s.as_bytes(), 0), true);
}

#[test]
fn value_float() {
    let s = "\"float ywidth\" [ 1.000000 ]";
    check_parsing(s, parse_value(s.as_bytes(), 0), true);
}

#[test]
fn value_string() {
    let s = "\"string filename\" [ \"bathroom2.png\" ]";
    check_parsing(s, parse_value(s.as_bytes(), 0), true);
}

#[test]
fn statement() {
    let s = "Film \"image\" \"integer xresolution\" [ 1280 ] \"integer yresolution\" [ 720 ] \"string filename\" [ \"bathroom2.png\" ]";
    check_parsing(s, parse_named_token(s.as_bytes(), 0), true);
}

#[test]
fn statements() {
    let s = r#"Integrator "path" "integer maxdepth" [ 65 ] 
        Sampler "sobol" "integer pixelsamples" [ 64 ] 
        PixelFilter "triangle" "float xwidth" [ 1.000000 ] "float ywidth" [ 1.000000 ] 
        Film "image" "integer xresolution" [ 1024 ] "integer yresolution" [ 1024 ] "string filename" [ "cornell-box.png" ] 
        Camera "perspective" "float fov" [ 19.500000 ]"#;

    check_parsing(s, parse_named_token_many(s.as_bytes(), 0), true);
}

#[test]
fn shape() {
    let s = r#"Shape "trianglemesh" "integer indices" [ 0 1 2 0 2 3 ] "point P" [ -1 1.74846e-007 -1 -1 1.74846e-007 1 1 -1.74846e-007 1 1 -1.74846e-007 -1 ] "normal N" [ 4.37114e-008 1 1.91069e-015 4.37114e-008 1 1.91069e-015 4.37114e-008 1 1.91069e-015 4.37114e-008 1 1.91069e-015 ] "float uv" [ 0 0 1 0 1 1 0 1 ]"#;
    check_parsing(s, parse_named_token_many(s.as_bytes(), 0), true);
}

#[test]
fn statements2() {
    let s = r#"	MakeNamedMaterial "Light" "string type" [ "matte" ] "rgb Kd" [ 0.000000 0.000000 0.000000 ] 
        NamedMaterial "Floor" 
        Shape "trianglemesh" "integer indices" [ 0 1 2 0 2 3 ] "point P" [ -1 1.74846e-007 -1 -1 1.74846e-007 1 1 -1.74846e-007 1 1 -1.74846e-007 -1 ] "normal N" [ 4.37114e-008 1 1.91069e-015 4.37114e-008 1 1.91069e-015 4.37114e-008 1 1.91069e-015 4.37114e-008 1 1.91069e-015 ] "float uv" [ 0 0 1 0 1 1 0 1 ]"#;
    check_parsing(s, parse(s.as_bytes(), 0), true);
}

#[test]
fn runs_end_where_the_class_ends() {
    let input = b"  \t\r\n abc123 \"x\"";
    assert_eq!(take_while(input, 0, ByteClass::Blank), 6);
    assert_eq!(take_while(input, 6, ByteClass::Blank), 6);
    assert_eq!(take_while(input, 6, ByteClass::Letter), 9);
    assert_eq!(take_while(input, 9, ByteClass::Digit), 12);
    assert_eq!(take_while(input, 6, ByteClass::NotSpace), 12);
    assert_eq!(take_while(input, 0, ByteClass::NotQuote), 13);
    assert_eq!(take_while(input, 0, ByteClass::NotNewline), 4);
    assert_eq!(take_while(input, 14, ByteClass::NotQuote), 15);
    assert_eq!(take_while(input, 16, ByteClass::NotQuote), 16);
    assert_eq!(take_while1(input, 6, ByteClass::Letter), Ok(9));
    assert_eq!(take_while1(input, 6, ByteClass::Digit), Err(ParseError::Error));
    assert_eq!(take_while1(input, 16, ByteClass::NotQuote), Err(ParseError::Error));
    for byte in 0..=255u8 {
        assert_eq!(ByteClass::Letter.contains(byte), (byte as char).is_ascii_alphabetic());
        assert_eq!(ByteClass::Digit.contains(byte), (byte as char).is_ascii_digit());
        assert_eq!(ByteClass::Blank.contains(byte), " \t\r\n".contains(byte as char));
        assert_eq!(ByteClass::NotQuote.contains(byte), byte != b'"');
        assert_eq!(ByteClass::NotSpace.contains(byte), byte != b' ');
        assert_eq!(ByteClass::NotNewline.contains(byte), byte != b'\n');
    }
}

#[test]
fn blanks_and_comments_are_skipped() {
    assert_eq!(sp(b"   x", 0), 3);
    assert_eq!(sp(b"x", 0), 0);
    assert_eq!(sp(b"", 0), 0);
    assert_eq!(sp(b" # a comment\n  x", 0), 15);
    assert_eq!(sp(b"# one\n# two\n\t# three", 0), 20);
    assert_eq!(sp(b"#", 0), 1);
    assert_eq!(sp(b"a # b\nc", 1), 6);
    assert_eq!(sp(b"a # b\nc", 6), 6);
}

#[test]
fn words_are_read_where_they_stand() {
    assert_eq!(tag(b"Shape \"x\"", 0, b"Shape"), Ok(5));
    assert_eq!(tag(b"  Shape", 2, b"Shape"), Ok(7));
    assert_eq!(tag(b"Shap", 0, b"Shape"), Err(ParseError::Error));
    assert_eq!(tag(b"shape", 0, b"Shape"), Err(ParseError::Error));
    assert_eq!(tag(b"abc", 3, b""), Ok(3));
}

#[test]
fn keywords_are_told_apart() {
    let all = [
        ("AttributeBegin", Keyword::AttributeBegin),
        ("AttributeEnd", Keyword::AttributeEnd),
        ("Identity", Keyword::Identity),
        ("ObjectEnd", Keyword::ObjectEnd),
        ("ReverseOrientation", Keyword::ReverseOrientation),
        ("TransformBegin", Keyword::TransformBegin),
        ("TransformEnd", Keyword::TransformEnd),
        ("WorldBegin", Keyword::WorldBegin),
        ("WorldEnd", Keyword::WorldEnd),
    ];
    for (text, keyword) in all {
        assert_eq!(parse_keyword(text.as_bytes(), 0), Ok((text.len(), keyword)));
        assert_eq!(keyword.word(), text.as_bytes());
        let padded = format!("  {} rest", text);
        assert_eq!(parse_keyword(padded.as_bytes(), 2), Ok((2 + text.len(), keyword)));
        assert_eq!(parse_keyword(padded.as_bytes(), 0), Err(ParseError::Error));
    }
    assert_eq!(parse_keyword(b"Transform", 0), Err(ParseError::Error));
    assert_eq!(parse_keyword(b"", 0), Err(ParseError::Error));
    for rank in 0..9 {
        assert_eq!(parse_keyword(Keyword::ranked(rank).word(), 0).map(|r| r.1), Ok(Keyword::ranked(rank)));
    }
}

#[test]
fn kinds_of_named_statement_are_told_apart() {
    let all = [
        ("Accelerator", NamedTokenType::Accelerator),
        ("AreaLightSource", NamedTokenType::AreaLightSource),
        ("Camera", NamedTokenType::Camera),
        ("CoordSys", NamedTokenType::CoordSys),
        ("CoordSysTransform", NamedTokenType::CoordSysTransform),
        ("Film", NamedTokenType::Film),
        ("Integrator", NamedTokenType::Integrator),
        ("LightSource", NamedTokenType::LightSource),
        ("MakeNamedMaterial", NamedTokenType::MakeNamedMaterial),
        ("MakeNamedMedium", NamedTokenType::MakeNamedMedium),
        ("Material", NamedTokenType::Material),
        ("NamedMaterial", NamedTokenType::NamedMaterial),
        ("Include", NamedTokenType::Include),
        ("PixelFilter", NamedTokenType::PixelFilter),
        ("Sampler", NamedTokenType::Sampler),
        ("Shape", NamedTokenType::Shape),
        ("ObjectInstance", NamedTokenType::ObjectInstance),
        ("ObjectBegin", NamedTokenType::ObjectBegin),
        ("SurfaceIntegrator", NamedTokenType::SurfaceIntegrator),
        ("VolumeIntegrator", NamedTokenType::VolumeIntegrator),
    ];
    for (text, kind) in all {
        assert_eq!(parse_named_token_type(text.as_bytes(), 0), Ok((text.len(), kind)));
        assert_eq!(kind.word(), text.as_bytes());
    }
    assert_eq!(
        parse_named_token_type(b"CoordSysTransform \"x\"", 0),
        Ok((17, NamedTokenType::CoordSysTransform))
    );
    assert_eq!(parse_named_token_type(b"CoordSysT", 0), Ok((8, NamedTokenType::CoordSys)));
    assert_eq!(parse_named_token_type(b"Shapes", 0), Ok((5, NamedTokenType::Shape)));
    assert_eq!(parse_named_token_type(b"WorldBegin", 0), Err(ParseError::Error));
    for rank in 0..20 {
        let kind = NamedTokenType::ranked(rank);
        assert_eq!(parse_named_token_type(kind.word(), 0).map(|r| r.1), Ok(kind));
    }
}

#[test]
fn doubles_are_read_with_their_value() {
    let read = |text: &str| double(text.as_bytes(), 0).map(|(end, value)| (end, f(value)));
    assert_eq!(read("1.5"), Ok((3, 1.5)));
    assert_eq!(read("-0.25 rest"), Ok((5, -0.25)));
    assert_eq!(read("1.74846e-007]"), Ok((12, 1.74846e-7)));
    assert_eq!(read("11e-1"), Ok((5, 1.1)));
    assert_eq!(read("123K-01"), Ok((3, 123.0)));
    assert_eq!(read("65"), Ok((2, 65.0)));
    assert_eq!(read("abc"), Err(ParseError::Error));
    assert_eq!(read(""), Err(ParseError::Error));
    assert_eq!(read("]"), Err(ParseError::Error));
    assert_eq!(read("1e"), Err(ParseError::Failure));
    assert_eq!(double(b"xx 2.5", 3).map(|(end, value)| (end, f(value))), Ok((6, 2.5)));
    assert!(f(double(b"-0", 0).expect("a zero").1).is_sign_negative());
}

#[test]
fn integers_are_read_by_their_digits() {
    assert_eq!(integer(b"a65b", 1, 3), Ok(65));
    assert_eq!(integer(b"007", 0, 3), Ok(7));
    assert_eq!(integer(b"0", 0, 1), Ok(0));
    assert_eq!(integer(b"0", 0, 0), Ok(0));
    assert_eq!(integer(b"9223372036854775807", 0, 19), Ok(i64::MAX));
    assert_eq!(integer(b"9223372036854775808", 0, 19), Err(ParseError::Invalid));
    assert_eq!(integer(b"99999999999999999999", 0, 20), Err(ParseError::Invalid));
    assert_eq!(integer(b"00000000000000000000000012", 0, 26), Ok(12));
}

#[test]
fn values_of_every_type() {
    let (name, value) = value_of("\"integer indices\" [ 0 1 2 0 2 3 ]");
    assert_eq!(name, "indices");
    assert_eq!(value.into_integer(), vec![0, 1, 2, 0, 2, 3]);
    assert_eq!(value_of("\"integer n\" 12 7").1.into_integer(), vec![12, 7]);
    assert_eq!(value_of("\"integer n\" []").1.into_integer(), Vec::<i64>::new());

    assert_eq!(floats(&value_of("\"float uv\" [ 0 0.5 1e2 ]").1.into_floats()), vec![0.0, 0.5, 100.0]);
    assert_eq!(f(value_of("\"float fov\" 19.5").1.into_float()), 19.5);
    assert_eq!(f(value_of("\"float fov\" [19.5]").1.into_float()), 19.5);

    assert!(value_of("\"bool on\" true").1.into_bool());
    assert!(!value_of("\"boolean on\" [ \"false\" ]").1.into_bool());
    assert!(value_of("\"bool on\" [true]").1.into_bool());

    assert_eq!(value_of("\"point P\" [ 1 2 3 ]").1.into_Vec3(), v(1.0, 2.0, 3.0));
    assert_eq!(
        value_of("\"normal N\" [ 1 2 3 -4 -5 -6 ]").1.into_vectors3(),
        vec![v(1.0, 2.0, 3.0), v(-4.0, -5.0, -6.0)]
    );
    for kind in ["point", "normal", "vector", "Vec3", "point3"] {
        let text = format!("\"{} P\" [ 1 2 3 ]", kind);
        assert!(matches!(value_of(&text).1, Value::Vec3(_)));
    }
    assert_eq!(value_of("\"point2 uv\" [ 1 2 ]").1.into_vector2(), Vec2::new(s(1.0), s(2.0)));
    assert_eq!(
        value_of("\"vector2 uv\" [ 1 2 3 4 ]").1.into_vectors2(),
        vec![Vec2::new(s(1.0), s(2.0)), Vec2::new(s(3.0), s(4.0))]
    );

    assert_eq!(
        value_of("\"rgb Kd\" [ 0.1 0.2 0.3 ]").1.into_rgb(),
        RGB { r: s(0.1), g: s(0.2), b: s(0.3) }
    );
    assert!(matches!(value_of("\"color Kd\" [ 1 0 0 ]").1, Value::RGB(_)));
    assert!(matches!(
        value_of("\"blackbody L\" [ 6500 2 ]").1,
        Value::Blackbody(Blackbody { temperature, scale }) if f(temperature) == 6500.0 && f(scale) == 2.0
    ));
    assert!(matches!(
        value_of("\"blackbody L\" [ 6500 ]").1,
        Value::Blackbody(Blackbody { temperature, scale }) if f(temperature) == 6500.0 && f(scale) == 1.0
    ));

    assert_eq!(value_of("\"string filename\" \"a b.png\"").1.into_string(), b"a b.png".to_vec());
    assert!(matches!(value_of("\"texture Kd\" [ \"wood\" ]").1, Value::Texture(name) if name == b"wood"));
    assert!(matches!(value_of("\"spectrum eta\" \"metal-Cu-eta\"").1, Value::Spectrum(name) if name == b"metal-Cu-eta"));
}

#[test]
fn values_convert_to_spectra_and_numbers() {
    assert!(matches!(value_of("\"rgb Kd\" [ 1 2 3 ]").1.into_spectrum(), Spectrum::RGB(rgb) if f(rgb.g) == 2.0));
    assert!(matches!(value_of("\"blackbody L\" [ 6500 ]").1.into_spectrum(), Spectrum::Blackbody(_)));
    assert!(matches!(value_of("\"texture Kd\" \"wood\"").1.into_spectrum(), Spectrum::Texture(name) if name == b"wood"));
    assert!(matches!(value_of("\"spectrum Kd\" \"cu\"").1.into_spectrum(), Spectrum::Spectrum(name) if name == b"cu"));
    assert!(matches!(value_of("\"texture Kd\" \"wood\"").1.into_bsdf_float(), BSDFFloat::Texture(name) if name == b"wood"));
    assert!(matches!(value_of("\"float Kd\" 0.5").1.into_bsdf_float(), BSDFFloat::Float(x) if f(x) == 0.5));
    let grey = RGB::color(s(0.5));
    assert_eq!((f(grey.r), f(grey.g), f(grey.b)), (0.5, 0.5, 0.5));
}

#[test]
fn values_that_mean_nothing_are_invalid() {
    let outcome = |text: &str| parse_value(text.as_bytes(), 0).map(|read| read.0);
    assert_eq!(outcome("\"colour Kd\" [ 1 2 3 ]"), Err(ParseError::Invalid));
    assert_eq!(outcome("\"bool on\" maybe"), Err(ParseError::Invalid));
    assert_eq!(outcome("\"point P\" [ 1 2 3 4 ]"), Err(ParseError::Invalid));
    assert_eq!(outcome("\"point2 P\" [ 1 2 3 ]"), Err(ParseError::Invalid));
    assert_eq!(outcome("\"integer n\" [ 9223372036854775808 ]"), Err(ParseError::Invalid));
    assert_eq!(outcome("\"float x\" [ 1e ]"), Err(ParseError::Failure));
    assert_eq!(outcome("integer n"), Err(ParseError::Error));
    assert_eq!(outcome("\"integer\""), Err(ParseError::Error));
    assert_eq!(outcome("\"rgb Kd\" [ 1 2 ]"), Err(ParseError::Error));
    assert_eq!(outcome("\"point P\" 1 2 3"), Err(ParseError::Error));
    assert_eq!(outcome("\"string s\" [ \"\" ]"), Err(ParseError::Error));
    assert_eq!(outcome("\"integer n\" [ 1 2"), Ok(12));
    assert_eq!(outcome(""), Err(ParseError::Error));
}

#[test]
fn a_later_parameter_replaces_an_earlier_one() {
    let text = "Film \"image\" \"integer x\" [ 1 ] \"string f\" \"a\" \"integer x\" [ 2 ]";
    let NamedToken { internal_type, values, object_type } =
        check_parsing(text, parse_named_token(text.as_bytes(), 0), false);
    assert_eq!(object_type, NamedTokenType::Film);
    assert_eq!(internal_type, b"image");
    assert_eq!(values.len(), 3);
    assert_eq!(lookup(&values, b"x"), Some(2));
    assert_eq!(lookup(&values, b"f"), Some(1));
    assert_eq!(lookup(&values, b"y"), None);
    assert!(matches!(&values[2].1, Value::Integer(x) if x == &vec![2]));
}

#[test]
fn named_statements_fail_for_good_once_begun() {
    let outcome = |text: &str| parse_named_token(text.as_bytes(), 0).map(|read| read.0);
    assert_eq!(outcome("Material \"\""), Ok(11));
    assert_eq!(outcome("Material \" matte \""), Ok(18));
    assert_eq!(outcome("Camera perspective"), Err(ParseError::Failure));
    assert_eq!(outcome("Camera \"perspective"), Err(ParseError::Failure));
    assert_eq!(outcome("Camera \"p\" \"float fov\" [ 1e ]"), Err(ParseError::Failure));
    assert_eq!(outcome("Camera \"p\" \"number fov\" 1"), Err(ParseError::Invalid));
    assert_eq!(outcome("Kamera \"p\""), Err(ParseError::Error));
    assert_eq!(outcome("Camera \"p\" \"float fov\" 1 trailing"), Ok(24));
    assert_eq!(parse_named_token_many(b" ", 0).map(|read| read.0), Err(ParseError::Error));
}

#[test]
fn statements_of_numbers() {
    let text = "LookAt 0 1 2  3 4 5  0 1 0";
    match check_parsing(text, look_at(text.as_bytes(), 0), false) {
        Token::LookAt { eye, look, up } => {
            assert_eq!((eye, look, up), (v(0.0, 1.0, 2.0), v(3.0, 4.0, 5.0), v(0.0, 1.0, 0.0)));
        }
        _ => panic!("a look-at statement"),
    }
    assert_eq!(look_at(b"LookAt 0 1 2", 0).map(|r| r.0), Err(ParseError::Invalid));
    assert_eq!(look_at(b"LookAt x", 0).map(|r| r.0), Err(ParseError::Error));
    assert!(matches!(scale(b"Scale 1 2 3", 0), Ok((11, Token::Scale(by))) if by == v(1.0, 2.0, 3.0)));
    assert!(matches!(translate(b"Translate -1 0 1.5", 0), Ok((18, Token::Translate(by))) if by == v(-1.0, 0.0, 1.5)));
    assert!(matches!(
        rotate(b"Rotate 90 0 1 0", 0),
        Ok((15, Token::Rotate { angle, axis })) if f(angle) == 90.0 && axis == v(0.0, 1.0, 0.0)
    ));
    assert_eq!(scale(b"Scale 1 2", 0).map(|r| r.0), Err(ParseError::Error));
    assert_eq!(rotate(b"Rotate 90 0 1", 0).map(|r| r.0), Err(ParseError::Error));
    assert_eq!(translate(b"Scale 1 2 3", 0).map(|r| r.0), Err(ParseError::Error));
    let sixteen = "ConcatTransform [1 0 0 0 0 1 0 0 0 0 1 0 0 0 0 1]";
    match check_parsing(sixteen, concat_transform(sixteen.as_bytes(), 0), false) {
        Token::ConcatTransform(numbers) => {
            assert_eq!(numbers.len(), 16);
            assert_eq!(floats(&numbers)[5], 1.0);
        }
        _ => panic!("a matrix"),
    }
    assert_eq!(concat_transform(b"ConcatTransform [1 2 3]", 0).map(|r| r.0), Err(ParseError::Invalid));
    assert_eq!(
        raytracer::parser::token::transform(b"Transform [1 2 3]", 0).map(|r| r.0),
        Err(ParseError::Invalid)
    );
    assert_eq!(
        raytracer::parser::token::transform(b"Transform 1 2 3", 0).map(|r| r.0),
        Err(ParseError::Error)
    );
}

#[test]
fn statements_of_names() {
    assert!(matches!(
        active_transform(b"ActiveTransform All", 0),
        Ok((19, Token::ActiveTransform(name))) if name == b"All"
    ));
    assert_eq!(active_transform(b"ActiveTransform 12", 0).map(|r| r.0), Err(ParseError::Error));
    assert!(matches!(
        medium_interface(b"MediumInterface \"\" \"fog\"", 0),
        Ok((24, Token::MediumInterface { inside, outside })) if inside.is_empty() && outside == b"fog"
    ));
    assert_eq!(medium_interface(b"MediumInterface \"a\"", 0).map(|r| r.0), Err(ParseError::Error));
    let text = "Texture \"wood\" \"spectrum\" \"imagemap\" \"string filename\" \"w.png\"";
    match check_parsing(text, texture(text.as_bytes(), 0), false) {
        Token::Texture { name, t, class, values } => {
            assert_eq!((name, t, class), (b"wood".to_vec(), b"spectrum".to_vec(), b"imagemap".to_vec()));
            assert_eq!(values.len(), 1);
            assert_eq!(values[0].0, b"filename");
        }
        _ => panic!("a texture"),
    }
    assert_eq!(texture(b"Texture \"wood\" \"spectrum\"", 0).map(|r| r.0), Err(ParseError::Error));
    assert_eq!(
        texture(b"Texture \"a\" \"b\" \"c\" \"what x\" 1", 0).map(|r| r.0),
        Err(ParseError::Invalid)
    );
}

#[test]
fn a_scene_is_a_run_of_statements() {
    let text = "# a scene\nLookAt 0 0 5  0 0 0  0 1 0\nCamera \"perspective\" \"float fov\" [ 40 ]\n\
                WorldBegin\n  AttributeBegin\n    Translate 1 2 3 # move\n    Shape \"sphere\" \"float radius\" 2\n  AttributeEnd\n\
                TransformBegin Identity TransformEnd\nWorldEnd\n";
    let tokens = check_parsing(text, parse(text.as_bytes(), 0), false);
    assert_eq!(tokens.len(), 11);
    assert!(matches!(tokens[0], Token::LookAt { .. }));
    assert!(matches!(&tokens[1], Token::NamedToken(token) if token.object_type == NamedTokenType::Camera));
    assert!(matches!(tokens[2], Token::Keyword(Keyword::WorldBegin)));
    assert!(matches!(tokens[3], Token::Keyword(Keyword::AttributeBegin)));
    assert!(matches!(tokens[4], Token::Translate(_)));
    assert!(matches!(&tokens[5], Token::NamedToken(token) if token.internal_type == b"sphere"));
    assert!(matches!(tokens[6], Token::Keyword(Keyword::AttributeEnd)));
    assert!(matches!(tokens[7], Token::Keyword(Keyword::TransformBegin)));
    assert!(matches!(tokens[8], Token::Keyword(Keyword::Identity)));
    assert!(matches!(tokens[9], Token::Keyword(Keyword::TransformEnd)));
    assert!(matches!(tokens[10], Token::Keyword(Keyword::WorldEnd)));

    assert_eq!(parse(b"", 0).map(|r| (r.0, r.1.len())), Ok((0, 0)));
    assert_eq!(parse(b"  # nothing\n", 0).map(|r| (r.0, r.1.len())), Ok((12, 0)));
    assert_eq!(parse(b"WorldBegin what", 0).map(|r| (r.0, r.1.len())), Ok((11, 1)));
    assert_eq!(parse(b"WorldBegin Camera", 0).map(|r| r.0), Err(ParseError::Failure));
    assert_eq!(parse(b"Transform [ 1 ]", 0).map(|r| r.0), Err(ParseError::Invalid));
    assert_eq!(parse_token(b"what", 0).map(|r| r.0), Err(ParseError::Error));
    assert!(matches!(parse_token(b"TransformBegin", 0), Ok((14, Token::Keyword(Keyword::TransformBegin)))));
}
