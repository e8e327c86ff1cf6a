use raytracer::parser::token::{lookup, parse, Token};
use raytracer::parser::value::Value;
use raytracer::scalar::Scalar;
use raytracer::scene::{file_name, EmptyFieldOfView, OutputSettings, Sight};
use raytracer::vec3::Vec3;

fn s(x: f64) -> Scalar {
    Scalar::from_bits(x.to_bits())
}

fn f(x: Scalar) -> f64 {
    f64::from_bits(x.to_bits())
}

fn v(x: f64, y: f64, z: f64) -> Vec3 {
    Vec3::new(s(x), s(y), s(z))
}

fn tokens(text: &str) -> Vec<Token> {
    let (end, tokens) = parse(text.as_bytes(), 0).expect("a scene");
    assert_eq!(end, text.len());
    tokens
}

#[test]
fn a_view_starts_down_the_negative_z_axis() {
    let sight = Sight::default();
    assert_eq!(sight.lookfrom, v(0.0, 0.0, 0.0));
    assert_eq!(sight.lookat, v(0.0, 0.0, -1.0));
    assert_eq!(sight.up, v(0.0, 1.0, 0.0));
    assert_eq!(f(sight.vertical_fov), 40.0);
    assert_eq!(Sight::default().apply_all(&vec![]), Ok(sight));
}

#[test]
fn a_scene_sets_the_view() {
    let scene = tokens(
        "LookAt 0 0 5  0 1 0  0 0 1\nCamera \"perspective\" \"float fov\" [ 19.5 ]\nWorldBegin\nWorldEnd",
    );
    let sight = Sight::default().apply_all(&scene).expect("a view");
    assert_eq!(sight.lookfrom, v(0.0, 0.0, 5.0));
    assert_eq!(sight.lookat, v(0.0, 1.0, 0.0));
    assert_eq!(sight.up, v(0.0, 0.0, 1.0));
    assert_eq!(f(sight.vertical_fov), 19.5);
    let step = Sight::default().apply(&scene[0]).expect("a view");
    assert_eq!((step.lookfrom, f(step.vertical_fov)), (v(0.0, 0.0, 5.0), 40.0));
    let step = Sight::default().apply(&scene[1]).expect("a view");
    assert_eq!((step.lookfrom, f(step.vertical_fov)), (v(0.0, 0.0, 0.0), 19.5));
    assert_eq!(Sight::default().apply(&scene[2]), Ok(Sight::default()));
}

#[test]
fn the_last_word_on_the_view_counts() {
    let scene = tokens(
        "Camera \"p\" \"float fov\" 10 \"float fov\" 20\nLookAt 1 1 1 2 2 2 0 1 0\n\
         Camera \"p\" \"float fov\" [ 30 31 ]\nLookAt 3 3 3 4 4 4 0 1 0\nFilm \"image\" \"float fov\" 50",
    );
    let sight = Sight::default().apply_all(&scene).expect("a view");
    assert_eq!(f(sight.vertical_fov), 30.0);
    assert_eq!(sight.lookfrom, v(3.0, 3.0, 3.0));
    let scene = tokens("Camera \"p\" \"float fov\" 10 \"integer fov\" 20");
    assert_eq!(f(Sight::default().apply_all(&scene).expect("a view").vertical_fov), 40.0);
    let scene = tokens("Camera \"p\" \"integer fov\" 20 \"float fov\" 10");
    assert_eq!(f(Sight::default().apply_all(&scene).expect("a view").vertical_fov), 10.0);
}

#[test]
fn a_field_of_view_without_a_number_is_an_error() {
    let scene = tokens("LookAt 1 1 1 2 2 2 0 1 0\nCamera \"p\" \"float fov\" [ ]\nCamera \"p\" \"float fov\" 10");
    assert_eq!(Sight::default().apply_all(&scene), Err(EmptyFieldOfView));
    assert_eq!(Sight::default().apply(&scene[1]), Err(EmptyFieldOfView));
}

#[test]
fn a_scene_names_its_picture() {
    let scene = tokens(
        "Film \"image\" \"integer xresolution\" [ 1280 ] \"string filename\" [ \"first.png\" ]\n\
         Camera \"p\" \"string filename\" \"camera.png\"\n\
         Film \"image\" \"string filename\" \"second.png\"\nFilm \"image\" \"integer filename\" 3\nWorldBegin",
    );
    assert_eq!(file_name(&scene), Some(b"second.png".to_vec()));
    assert_eq!(file_name(&scene[..2].iter().map(|_| Token::Keyword(raytracer::parser::Keyword::Identity)).collect()), None);
    assert_eq!(file_name(&tokens("Film \"image\" \"string filename\" \"a\" \"string filename\" \"b\"")), Some(b"b".to_vec()));
    assert_eq!(file_name(&tokens("WorldBegin WorldEnd")), None);
    assert_eq!(file_name(&vec![]), None);
}

#[test]
fn settings_start_from_a_single_nameless_picture() {
    match OutputSettings::default() {
        OutputSettings::StaticImage { image_settings } => {
            assert_eq!(image_settings.width, 0);
            assert_eq!(image_settings.height, 0);
            assert_eq!(image_settings.samples_per_pixel, 1000);
            assert_eq!(image_settings.max_bounces, 10);
            assert_eq!(image_settings.background, v(0.0, 0.0, 0.0));
            assert!(image_settings.file_name.is_empty());
        }
        OutputSettings::Animation { .. } => panic!("a single picture"),
    }
}

#[test]
fn parameters_are_found_by_their_last_name() {
    let scene = tokens("Shape \"sphere\" \"float radius\" 1 \"float radius\" 2 \"float other\" 3");
    match &scene[0] {
        Token::NamedToken(statement) => {
            assert_eq!(lookup(&statement.values, b"radius"), Some(1));
            assert_eq!(lookup(&statement.values, b"other"), Some(2));
            assert_eq!(lookup(&statement.values, b"radiu"), None);
            assert_eq!(lookup(&statement.values, b""), None);
            assert!(matches!(&statement.values[1].1, Value::Float(numbers) if f(numbers[0]) == 2.0));
        }
        _ => panic!("a shape"),
    }
}
