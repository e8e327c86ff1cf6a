//! What a scene says about the picture and the view.

use vstd::prelude::*;
use vstd::string::StringSliceAdditionalSpecFns;
use crate::parser::token::{Token, last_named, lookup};
use crate::parser::value::{Text, Value, copy_text};
use crate::parser::NamedTokenType;
use crate::scalar::Scalar;
use crate::vec3::{Color, Vec3};

verus! {

/// Order key of forty, the vertical field of view in degrees that a view
/// has until a scene says otherwise.
pub const DEFAULT_FOV_KEY: i64 = 0x4044_0000_0000_0000;

/// The picture: its size, how long to work on every pixel, what lies behind
/// everything, and where to put the result.
#[derive(Debug, Clone)]
pub struct ImageSettings {
    pub width: usize,
    pub height: usize,
    pub samples_per_pixel: usize,
    pub max_bounces: usize,
    pub background: Color,
    pub file_name: Text,
}

/// One picture, or a run of them.
#[derive(Debug, Clone)]
pub enum OutputSettings {
    StaticImage { image_settings: ImageSettings },
    Animation { image_settings: ImageSettings, fps: Scalar, duration: Scalar },
}

impl Default for OutputSettings {
    /// A single picture without a size and without a name, with a
    /// thousand samples to the pixel, ten bounces and a black background.
    fn default() -> (settings: OutputSettings)
        ensures
            settings matches OutputSettings::StaticImage { image_settings } && {
                &&& image_settings.width == 0
                &&& image_settings.height == 0
                &&& image_settings.samples_per_pixel == 1000
                &&& image_settings.max_bounces == 10
                &&& image_settings.background == Vec3::origin()
                &&& image_settings.file_name@.len() == 0
            },
    {
        OutputSettings::StaticImage {
            image_settings: ImageSettings {
                width: 0,
                height: 0,
                samples_per_pixel: 1000,
                max_bounces: 10,
                background: Vec3::default(),
                file_name: Vec::new(),
            },
        }
    }
}

/// Where the eye is, what it looks at, which way is up, and how wide it
/// sees, in degrees.
#[derive(Clone, Copy, Debug, PartialEq, Eq, Structural)]
pub struct Sight {
    pub lookfrom: Vec3,
    pub lookat: Vec3,
    pub up: Vec3,
    pub vertical_fov: Scalar,
}

/// A scene sets a field of view without giving a number for it.
#[derive(Clone, Copy, Debug, PartialEq, Eq, Structural)]
pub struct EmptyFieldOfView;

impl Default for Sight {
    /// From the origin down the negative z axis, with y up and forty degrees
    /// of view.
    fn default() -> (sight: Sight)
        ensures
            sight == Sight::initial(),
    {
        Sight {
            lookfrom: Vec3::default(),
            lookat: Vec3::new(Scalar::zero(), Scalar::zero(), Scalar::neg_one()),
            up: Vec3::new(Scalar::zero(), Scalar::one(), Scalar::zero()),
            vertical_fov: Scalar { key: DEFAULT_FOV_KEY },
        }
    }
}

impl Sight {
    /// The view that a scene starts from.
    pub open spec fn initial() -> Sight {
        Sight {
            lookfrom: Vec3::origin(),
            lookat: Vec3 {
                x: Scalar { key: 0 },
                y: Scalar { key: 0 },
                z: Scalar { key: crate::scalar::NEG_ONE_KEY },
            },
            up: Vec3 {
                x: Scalar { key: 0 },
                y: Scalar { key: crate::scalar::ONE_KEY },
                z: Scalar { key: 0 },
            },
            vertical_fov: Scalar { key: DEFAULT_FOV_KEY },
        }
    }

    /// What one statement makes of the view. A `LookAt` statement sets eye,
    /// target and up. A `Camera` statement whose parameter `fov` is a list
    /// of numbers sets the field of view to the first of them, and is in
    /// error where the list is empty. Every other statement leaves the
    /// view as it is.
    pub open spec fn after(self, token: Token) -> Result<Sight, EmptyFieldOfView> {
        match token {
            Token::LookAt { eye, look, up } => Ok(
                Sight { lookfrom: eye, lookat: look, up, ..self },
            ),
            Token::NamedToken(statement) => if statement.object_type == NamedTokenType::Camera {
                match last_named(
                    statement.values@,
                    "fov".spec_bytes(),
                    statement.values@.len() as int,
                ) {
                    Some(i) => match statement.values@[i].1 {
                        Value::Float(numbers) => if numbers@.len() == 0 {
                            Err(EmptyFieldOfView)
                        } else {
                            Ok(Sight { vertical_fov: numbers@[0], ..self })
                        },
                        _ => Ok(self),
                    },
                    None => Ok(self),
                }
            } else {
                Ok(self)
            },
            _ => Ok(self),
        }
    }

    /// What the statements from `done` on make of the view, one after the
    /// other.
    pub open spec fn after_all(self, tokens: Seq<Token>, done: int) -> Result<
        Sight,
        EmptyFieldOfView,
    >
        decreases tokens.len() - done,
    {
        if done < 0 || done >= tokens.len() {
            Ok(self)
        } else {
            match self.after(tokens[done]) {
                Ok(next) => next.after_all(tokens, done + 1),
                Err(e) => Err(e),
            }
        }
    }

    /// Applies one statement of a scene to the view.
    pub fn apply(&self, token: &Token) -> (out: Result<Sight, EmptyFieldOfView>)
        ensures
            out == self.after(*token),
    {
        match token {
            Token::LookAt { eye, look, up } => Ok(
                Sight {
                    lookfrom: *eye,
                    lookat: *look,
                    up: *up,
                    vertical_fov: self.vertical_fov,
                },
            ),
            Token::NamedToken(statement) => {
                match statement.object_type {
                    NamedTokenType::Camera => {},
                    _ => {
                        return Ok(*self);
                    },
                }
                match lookup(&statement.values, "fov".as_bytes()) {
                    Some(i) => match &statement.values[i].1 {
                        Value::Float(numbers) => {
                            if numbers.len() == 0 {
                                Err(EmptyFieldOfView)
                            } else {
                                Ok(
                                    Sight {
                                        lookfrom: self.lookfrom,
                                        lookat: self.lookat,
                                        up: self.up,
                                        vertical_fov: numbers[0],
                                    },
                                )
                            }
                        },
                        _ => Ok(*self),
                    },
                    None => Ok(*self),
                }
            },
            _ => Ok(*self),
        }
    }

    /// Applies the statements of a scene to the view, one after the other.
    pub fn apply_all(&self, tokens: &Vec<Token>) -> (out: Result<Sight, EmptyFieldOfView>)
        ensures
            out == self.after_all(tokens@, 0),
    {
        let mut sight = *self;
        let mut done: usize = 0;
        while done < tokens.len()
            invariant
                done <= tokens@.len(),
                self.after_all(tokens@, 0) == sight.after_all(tokens@, done as int),
            decreases tokens@.len() - done,
        {
            sight = sight.apply(&tokens[done])?;
            done = done + 1;
        }
        Ok(sight)
    }
}

/// The file name that a statement sets: the text of the parameter
/// `filename` of a `Film` statement, as a place among the parameters.
pub open spec fn names_file(token: Token) -> Option<int> {
    match token {
        Token::NamedToken(statement) => if statement.object_type == NamedTokenType::Film {
            match last_named(
                statement.values@,
                "filename".spec_bytes(),
                statement.values@.len() as int,
            ) {
                Some(i) => if statement.values@[i].1 is String {
                    Some(i)
                } else {
                    None
                },
                None => None,
            }
        } else {
            None
        },
        _ => None,
    }
}

/// The file name that the first `upto` statements of a scene set: that of
/// the last statement that sets one.
pub open spec fn file_name_among(tokens: Seq<Token>, upto: int) -> Option<Seq<u8>>
    decreases upto,
{
    if upto <= 0 {
        None
    } else {
        match names_file(tokens[upto - 1]) {
            Some(i) => Some(tokens[upto - 1]->NamedToken_0.values@[i].1->String_0@),
            None => file_name_among(tokens, upto - 1),
        }
    }
}

/// The place of the parameter by which a statement sets the file name.
fn file_parameter(token: &Token) -> (found: Option<usize>)
    ensures
        match found {
            Some(i) => names_file(*token) == Some(i as int) && token is NamedToken && i
                < token->NamedToken_0.values@.len(),
            None => names_file(*token) is None,
        },
{
    match token {
        Token::NamedToken(statement) => {
            match statement.object_type {
                NamedTokenType::Film => {},
                _ => {
                    return None;
                },
            }
            match lookup(&statement.values, "filename".as_bytes()) {
                Some(i) => match &statement.values[i].1 {
                    Value::String(_) => Some(i),
                    _ => None,
                },
                None => None,
            }
        },
        _ => None,
    }
}

/// The file name that a scene sets for its picture, if it sets one.
pub fn file_name(tokens: &Vec<Token>) -> (name: Option<Text>)
    ensures
        match name {
            Some(text) => file_name_among(tokens@, tokens@.len() as int) == Some(text@),
            None => file_name_among(tokens@, tokens@.len() as int) is None,
        },
{
    let mut upto = tokens.len();
    while upto > 0
        invariant
            upto <= tokens@.len(),
            file_name_among(tokens@, tokens@.len() as int) == file_name_among(
                tokens@,
                upto as int,
            ),
        decreases upto,
    {
        upto = upto - 1;
        match file_parameter(&tokens[upto]) {
            Some(i) => {
                match &tokens[upto] {
                    Token::NamedToken(statement) => match &statement.values[i].1 {
                        Value::String(text) => {
                            let length = text.len();
                            let copy = copy_text(text.as_slice(), 0, length);
                            proof {
                                assert(copy@ =~= text@);
                            }
                            return Some(copy);
                        },
                        _ => {},
                    },
                    _ => {},
                }
            },
            None => {},
        }
    }
    None
}

} // verus!
