//! The scene language, read from bytes.
//!
//! A parser here takes the whole input and a position in it, and answers
//! with the position behind what it read together with what it read, or
//! with the reason why it read nothing.

use vstd::prelude::*;
use vstd::string::StringSliceAdditionalSpecFns;

pub mod number;
pub mod token;
pub mod value;

verus! {

/// Why a parser gave up.
#[derive(Clone, Copy, Debug, PartialEq, Eq, Structural)]
pub enum ParseError {
    /// The input does not start with what the parser reads; another parser
    /// may.
    Error,
    /// The input starts like what the parser reads and then goes wrong; no
    /// other parser is tried.
    Failure,
    /// The text is well formed but says something that has no meaning: an
    /// unknown type name, a truth value that is neither true nor false, a
    /// list of the wrong length, a number that is too large.
    Invalid,
}

/// The classes of bytes that the language tells apart.
#[derive(Clone, Copy, Debug, PartialEq, Eq, Structural)]
pub enum ByteClass {
    /// Space, tab, carriage return and line feed.
    Blank,
    /// Everything but a line feed.
    NotNewline,
    /// Everything but a double quote.
    NotQuote,
    /// Everything but a space.
    NotSpace,
    /// The ten decimal digits.
    Digit,
    /// The ASCII letters.
    Letter,
}

/// The byte `#`, which starts a comment.
pub const HASH: u8 = 0x23;

/// The byte `"`.
pub const QUOTE: u8 = 0x22;

/// The byte `[`.
pub const OPEN_BRACKET: u8 = 0x5B;

/// The byte `]`.
pub const CLOSE_BRACKET: u8 = 0x5D;

impl ByteClass {
    /// Whether a byte belongs to the class.
    pub open spec fn holds(self, byte: u8) -> bool {
        match self {
            ByteClass::Blank => byte == 0x20 || byte == 0x09 || byte == 0x0D || byte == 0x0A,
            ByteClass::NotNewline => byte != 0x0A,
            ByteClass::NotQuote => byte != 0x22,
            ByteClass::NotSpace => byte != 0x20,
            ByteClass::Digit => 0x30 <= byte <= 0x39,
            ByteClass::Letter => (0x41 <= byte <= 0x5A) || (0x61 <= byte <= 0x7A),
        }
    }

    /// Whether a byte belongs to the class.
    pub fn contains(&self, byte: u8) -> (b: bool)
        ensures
            b == self.holds(byte),
    {
        match self {
            ByteClass::Blank => byte == 0x20 || byte == 0x09 || byte == 0x0D || byte == 0x0A,
            ByteClass::NotNewline => byte != 0x0A,
            ByteClass::NotQuote => byte != 0x22,
            ByteClass::NotSpace => byte != 0x20,
            ByteClass::Digit => 0x30 <= byte && byte <= 0x39,
            ByteClass::Letter => (0x41 <= byte && byte <= 0x5A) || (0x61 <= byte && byte <= 0x7A),
        }
    }
}

/// Where the longest run of bytes of a class ends that starts at `at`.
pub open spec fn run_end(input: Seq<u8>, at: int, class: ByteClass) -> int
    decreases input.len() - at,
{
    if 0 <= at < input.len() && class.holds(input[at]) {
        run_end(input, at + 1, class)
    } else {
        at
    }
}

/// Where white space and comments end that start at `at`. A comment runs
/// from a `#` to the end of its line.
pub open spec fn blank_end(input: Seq<u8>, at: int) -> int
    decreases input.len() - at,
{
    let after_blanks = run_end(input, at, ByteClass::Blank);
    let after_comment = run_end(input, after_blanks + 1, ByteClass::NotNewline);
    if 0 <= after_blanks < input.len() && input[after_blanks] == HASH && at < after_comment
        <= input.len() {
        blank_end(input, after_comment)
    } else {
        after_blanks
    }
}

/// Whether `word` stands in the input at `at`.
pub open spec fn has_word_at(input: Seq<u8>, at: int, word: Seq<u8>) -> bool {
    0 <= at && at + word.len() <= input.len() && input.subrange(at, at + word.len()) == word
}

/// What reading a run of a class that must not be empty gives: the place
/// where the run ends, or an error where it is empty.
pub open spec fn run1_at(input: Seq<u8>, at: usize, class: ByteClass) -> Result<usize, ParseError> {
    if run_end(input, at as int, class) > at {
        Ok(run_end(input, at as int, class) as usize)
    } else {
        Err(ParseError::Error)
    }
}

/// Where white space and comments end, as a place in the input.
pub open spec fn sp_at(input: Seq<u8>, at: usize) -> usize {
    blank_end(input, at as int) as usize
}

/// What reading one given byte gives: the place behind it, or an error
/// where another byte or nothing stands.
pub open spec fn byte_at(input: Seq<u8>, at: usize, wanted: u8) -> Result<usize, ParseError> {
    if at < input.len() && input[at as int] == wanted {
        Ok((at + 1) as usize)
    } else {
        Err(ParseError::Error)
    }
}

/// What reading one given word gives: the place behind it, or an error
/// where it does not stand.
pub open spec fn tag_at(input: Seq<u8>, at: usize, word: Seq<u8>) -> Result<usize, ParseError> {
    if has_word_at(input, at as int, word) {
        Ok((at + word.len()) as usize)
    } else {
        Err(ParseError::Error)
    }
}

/// A run ends at or behind its start, within the input.
pub proof fn run_end_is_in_range(input: Seq<u8>, at: int, class: ByteClass)
    requires
        0 <= at <= input.len(),
    ensures
        at <= run_end(input, at, class) <= input.len(),
        forall|k: int| at <= k < run_end(input, at, class) ==> class.holds(#[trigger] input[k]),
        run_end(input, at, class) < input.len() ==> !class.holds(
            input[run_end(input, at, class)],
        ),
    decreases input.len() - at,
{
    if at < input.len() && class.holds(input[at]) {
        run_end_is_in_range(input, at + 1, class);
    }
}

/// A comment is skipped wherever the white space ends at a `#`.
pub proof fn blank_end_skips_comments(input: Seq<u8>, at: int)
    requires
        0 <= at <= input.len(),
    ensures
        ({
            let after_blanks = run_end(input, at, ByteClass::Blank);
            blank_end(input, at) == if after_blanks < input.len() && input[after_blanks] == HASH {
                blank_end(input, run_end(input, after_blanks + 1, ByteClass::NotNewline))
            } else {
                after_blanks
            }
        }),
{
    let after_blanks = run_end(input, at, ByteClass::Blank);
    run_end_is_in_range(input, at, ByteClass::Blank);
    if after_blanks < input.len() {
        run_end_is_in_range(input, after_blanks + 1, ByteClass::NotNewline);
    }
}

/// Reads the longest run of bytes of a class; the run may be empty.
pub fn take_while(input: &[u8], at: usize, class: ByteClass) -> (end: usize)
    requires
        at <= input@.len(),
    ensures
        end == run_end(input@, at as int, class),
        at <= end <= input@.len(),
{
    let length = input.len();
    let mut i = at;
    while i < length && class.contains(input[i])
        invariant
            at <= i <= length,
            length == input@.len(),
            run_end(input@, at as int, class) == run_end(input@, i as int, class),
        decreases length - i,
    {
        i = i + 1;
    }
    i
}

/// Reads the longest run of bytes of a class, which must not be empty.
pub fn take_while1(input: &[u8], at: usize, class: ByteClass) -> (out: Result<usize, ParseError>)
    requires
        at <= input@.len(),
    ensures
        out == run1_at(input@, at, class),
        out matches Ok(end) ==> at < end <= input@.len() && end == run_end(
            input@,
            at as int,
            class,
        ),
{
    let end = take_while(input, at, class);
    if end == at {
        Err(ParseError::Error)
    } else {
        Ok(end)
    }
}

/// Skips white space and comments.
pub fn sp(input: &[u8], at: usize) -> (end: usize)
    requires
        at <= input@.len(),
    ensures
        end == sp_at(input@, at),
        end == blank_end(input@, at as int),
        at <= end <= input@.len(),
{
    let length = input.len();
    let mut i = at;
    loop
        invariant_except_break
            blank_end(input@, at as int) == blank_end(input@, i as int),
        invariant
            at <= i <= length,
            length == input@.len(),
        ensures
            i == blank_end(input@, at as int),
        decreases length - i,
    {
        proof {
            blank_end_skips_comments(input@, i as int);
        }
        let after_blanks = take_while(input, i, ByteClass::Blank);
        if after_blanks < length && input[after_blanks] == HASH {
            let after_comment = take_while(input, after_blanks + 1, ByteClass::NotNewline);
            i = after_comment;
        } else {
            i = after_blanks;
            break;
        }
    }
    i
}

/// Reads one given byte.
pub fn byte(input: &[u8], at: usize, wanted: u8) -> (out: Result<usize, ParseError>)
    requires
        at <= input@.len(),
    ensures
        out == byte_at(input@, at, wanted),
        out matches Ok(end) ==> end == at + 1 && end <= input@.len(),
{
    if at < input.len() && input[at] == wanted {
        Ok(at + 1)
    } else {
        Err(ParseError::Error)
    }
}

/// Reads one given word.
pub fn tag(input: &[u8], at: usize, word: &[u8]) -> (out: Result<usize, ParseError>)
    requires
        at <= input@.len(),
    ensures
        out == tag_at(input@, at, word@),
        out matches Ok(end) ==> end == at + word@.len() && end <= input@.len(),
{
    let length = input.len();
    if word.len() > length - at {
        return Err(ParseError::Error);
    }
    let mut i: usize = 0;
    while i < word.len()
        invariant
            i <= word@.len(),
            length == input@.len(),
            at + word@.len() <= length,
            forall|k: int| 0 <= k < i ==> input@[at + k] == word@[k],
        decreases word@.len() - i,
    {
        if input[at + i] != word[i] {
            proof {
                assert(input@.subrange(at as int, at + word@.len())[i as int] == input@[at + i]);
            }
            return Err(ParseError::Error);
        }
        i = i + 1;
    }
    proof {
        assert(input@.subrange(at as int, at + word@.len()) =~= word@);
    }
    Ok(at + word.len())
}

/// The words that stand alone as a statement.
#[derive(Debug, Clone, Copy, PartialEq, Eq, Structural)]
pub enum Keyword {
    AttributeBegin,
    AttributeEnd,
    Identity,
    ObjectEnd,
    ReverseOrientation,
    TransformBegin,
    TransformEnd,
    WorldBegin,
    WorldEnd,
}

impl Keyword {
    /// The keyword as it is written.
    pub open spec fn text(self) -> Seq<u8> {
        match self {
            Keyword::AttributeBegin => "AttributeBegin".spec_bytes(),
            Keyword::AttributeEnd => "AttributeEnd".spec_bytes(),
            Keyword::Identity => "Identity".spec_bytes(),
            Keyword::ObjectEnd => "ObjectEnd".spec_bytes(),
            Keyword::ReverseOrientation => "ReverseOrientation".spec_bytes(),
            Keyword::TransformBegin => "TransformBegin".spec_bytes(),
            Keyword::TransformEnd => "TransformEnd".spec_bytes(),
            Keyword::WorldBegin => "WorldBegin".spec_bytes(),
            Keyword::WorldEnd => "WorldEnd".spec_bytes(),
        }
    }

    /// The place of the keyword in the order in which the keywords are
    /// tried.
    pub open spec fn rank(self) -> int {
        match self {
            Keyword::AttributeBegin => 0,
            Keyword::AttributeEnd => 1,
            Keyword::Identity => 2,
            Keyword::ReverseOrientation => 3,
            Keyword::TransformBegin => 4,
            Keyword::TransformEnd => 5,
            Keyword::WorldBegin => 6,
            Keyword::WorldEnd => 7,
            Keyword::ObjectEnd => 8,
        }
    }

    /// The keyword at a place in the order in which the keywords are tried.
    pub open spec fn of_rank(rank: int) -> Keyword {
        if rank == 0 {
            Keyword::AttributeBegin
        } else if rank == 1 {
            Keyword::AttributeEnd
        } else if rank == 2 {
            Keyword::Identity
        } else if rank == 3 {
            Keyword::ReverseOrientation
        } else if rank == 4 {
            Keyword::TransformBegin
        } else if rank == 5 {
            Keyword::TransformEnd
        } else if rank == 6 {
            Keyword::WorldBegin
        } else if rank == 7 {
            Keyword::WorldEnd
        } else {
            Keyword::ObjectEnd
        }
    }

    /// The keyword as it is written.
    pub fn word(&self) -> (word: &'static [u8])
        ensures
            word@ == self.text(),
    {
        match self {
            Keyword::AttributeBegin => "AttributeBegin".as_bytes(),
            Keyword::AttributeEnd => "AttributeEnd".as_bytes(),
            Keyword::Identity => "Identity".as_bytes(),
            Keyword::ObjectEnd => "ObjectEnd".as_bytes(),
            Keyword::ReverseOrientation => "ReverseOrientation".as_bytes(),
            Keyword::TransformBegin => "TransformBegin".as_bytes(),
            Keyword::TransformEnd => "TransformEnd".as_bytes(),
            Keyword::WorldBegin => "WorldBegin".as_bytes(),
            Keyword::WorldEnd => "WorldEnd".as_bytes(),
        }
    }

    /// The keyword at a place in the order in which the keywords are tried.
    pub fn ranked(rank: usize) -> (keyword: Keyword)
        requires
            rank < 9,
        ensures
            keyword.rank() == rank,
            keyword == Keyword::of_rank(rank as int),
    {
        if rank == 0 {
            Keyword::AttributeBegin
        } else if rank == 1 {
            Keyword::AttributeEnd
        } else if rank == 2 {
            Keyword::Identity
        } else if rank == 3 {
            Keyword::ReverseOrientation
        } else if rank == 4 {
            Keyword::TransformBegin
        } else if rank == 5 {
            Keyword::TransformEnd
        } else if rank == 6 {
            Keyword::WorldBegin
        } else if rank == 7 {
            Keyword::WorldEnd
        } else {
            Keyword::ObjectEnd
        }
    }
}

/// What reading a keyword gives when the keywords below `rank` do not stand
/// at `at`: the first of the others that does, with the place behind it.
pub open spec fn keyword_from(input: Seq<u8>, at: usize, rank: int) -> Result<
    (usize, Keyword),
    ParseError,
>
    decreases 9 - rank,
{
    if rank < 0 || rank >= 9 {
        Err(ParseError::Error)
    } else {
        match tag_at(input, at, Keyword::of_rank(rank).text()) {
            Ok(end) => Ok((end, Keyword::of_rank(rank))),
            Err(_) => keyword_from(input, at, rank + 1),
        }
    }
}

/// What reading a keyword gives.
pub open spec fn keyword_at(input: Seq<u8>, at: usize) -> Result<(usize, Keyword), ParseError> {
    keyword_from(input, at, 0)
}

/// Reads a keyword: the first, in the order of their ranks, that stands at
/// `at`.
pub fn parse_keyword(input: &[u8], at: usize) -> (out: Result<(usize, Keyword), ParseError>)
    requires
        at <= input@.len(),
    ensures
        out == keyword_at(input@, at),
        match out {
            Ok((end, keyword)) => {
                &&& has_word_at(input@, at as int, keyword.text())
                &&& end == at + keyword.text().len()
                &&& forall|other: Keyword|
                    other.rank() < keyword.rank() ==> !has_word_at(
                        input@,
                        at as int,
                        #[trigger] other.text(),
                    )
            },
            Err(e) => e == ParseError::Error && forall|other: Keyword|
                !has_word_at(input@, at as int, #[trigger] other.text()),
        },
{
    let mut rank: usize = 0;
    while rank < 9
        invariant
            rank <= 9,
            at <= input@.len(),
            keyword_at(input@, at) == keyword_from(input@, at, rank as int),
            forall|other: Keyword|
                other.rank() < rank ==> !has_word_at(input@, at as int, #[trigger] other.text()),
        decreases 9 - rank,
    {
        let keyword = Keyword::ranked(rank);
        match tag(input, at, keyword.word()) {
            Ok(end) => {
                return Ok((end, keyword));
            },
            Err(_) => {
                assert forall|other: Keyword| other.rank() < rank + 1 implies !has_word_at(
                    input@,
                    at as int,
                    #[trigger] other.text(),
                ) by {
                    if other.rank() == rank {
                        assert(other == keyword);
                    }
                }
            },
        }
        rank = rank + 1;
    }
    Err(ParseError::Error)
}

/// The words that open a statement with a name and a list of parameters.
#[derive(Debug, Clone, Copy, PartialEq, Eq, Structural)]
pub enum NamedTokenType {
    Accelerator,
    AreaLightSource,
    Camera,
    CoordSys,
    CoordSysTransform,
    Film,
    Integrator,
    LightSource,
    MakeNamedMaterial,
    MakeNamedMedium,
    Material,
    NamedMaterial,
    Include,
    PixelFilter,
    Sampler,
    Shape,
    ObjectInstance,
    ObjectBegin,
    SurfaceIntegrator,
    VolumeIntegrator,
}

impl NamedTokenType {
    /// The word as it is written.
    pub open spec fn text(self) -> Seq<u8> {
        match self {
            NamedTokenType::Accelerator => "Accelerator".spec_bytes(),
            NamedTokenType::AreaLightSource => "AreaLightSource".spec_bytes(),
            NamedTokenType::Camera => "Camera".spec_bytes(),
            NamedTokenType::CoordSys => "CoordSys".spec_bytes(),
            NamedTokenType::CoordSysTransform => "CoordSysTransform".spec_bytes(),
            NamedTokenType::Film => "Film".spec_bytes(),
            NamedTokenType::Integrator => "Integrator".spec_bytes(),
            NamedTokenType::LightSource => "LightSource".spec_bytes(),
            NamedTokenType::MakeNamedMaterial => "MakeNamedMaterial".spec_bytes(),
            NamedTokenType::MakeNamedMedium => "MakeNamedMedium".spec_bytes(),
            NamedTokenType::Material => "Material".spec_bytes(),
            NamedTokenType::NamedMaterial => "NamedMaterial".spec_bytes(),
            NamedTokenType::Include => "Include".spec_bytes(),
            NamedTokenType::PixelFilter => "PixelFilter".spec_bytes(),
            NamedTokenType::Sampler => "Sampler".spec_bytes(),
            NamedTokenType::Shape => "Shape".spec_bytes(),
            NamedTokenType::ObjectInstance => "ObjectInstance".spec_bytes(),
            NamedTokenType::ObjectBegin => "ObjectBegin".spec_bytes(),
            NamedTokenType::SurfaceIntegrator => "SurfaceIntegrator".spec_bytes(),
            NamedTokenType::VolumeIntegrator => "VolumeIntegrator".spec_bytes(),
        }
    }

    /// The place of the word in the order in which the words are tried.
    /// `CoordSysTransform` comes before `CoordSys`, with which it begins.
    pub open spec fn rank(self) -> int {
        match self {
            NamedTokenType::Accelerator => 0,
            NamedTokenType::AreaLightSource => 1,
            NamedTokenType::Camera => 2,
            NamedTokenType::CoordSysTransform => 3,
            NamedTokenType::CoordSys => 4,
            NamedTokenType::Film => 5,
            NamedTokenType::Integrator => 6,
            NamedTokenType::LightSource => 7,
            NamedTokenType::MakeNamedMaterial => 8,
            NamedTokenType::MakeNamedMedium => 9,
            NamedTokenType::Material => 10,
            NamedTokenType::NamedMaterial => 11,
            NamedTokenType::Include => 12,
            NamedTokenType::PixelFilter => 13,
            NamedTokenType::Sampler => 14,
            NamedTokenType::Shape => 15,
            NamedTokenType::ObjectInstance => 16,
            NamedTokenType::ObjectBegin => 17,
            NamedTokenType::SurfaceIntegrator => 18,
            NamedTokenType::VolumeIntegrator => 19,
        }
    }

    /// The word at a place in the order in which the words are tried.
    pub open spec fn of_rank(rank: int) -> NamedTokenType {
        if rank == 0 {
            NamedTokenType::Accelerator
        } else if rank == 1 {
            NamedTokenType::AreaLightSource
        } else if rank == 2 {
            NamedTokenType::Camera
        } else if rank == 3 {
            NamedTokenType::CoordSysTransform
        } else if rank == 4 {
            NamedTokenType::CoordSys
        } else if rank == 5 {
            NamedTokenType::Film
        } else if rank == 6 {
            NamedTokenType::Integrator
        } else if rank == 7 {
            NamedTokenType::LightSource
        } else if rank == 8 {
            NamedTokenType::MakeNamedMaterial
        } else if rank == 9 {
            NamedTokenType::MakeNamedMedium
        } else if rank == 10 {
            NamedTokenType::Material
        } else if rank == 11 {
            NamedTokenType::NamedMaterial
        } else if rank == 12 {
            NamedTokenType::Include
        } else if rank == 13 {
            NamedTokenType::PixelFilter
        } else if rank == 14 {
            NamedTokenType::Sampler
        } else if rank == 15 {
            NamedTokenType::Shape
        } else if rank == 16 {
            NamedTokenType::ObjectInstance
        } else if rank == 17 {
            NamedTokenType::ObjectBegin
        } else if rank == 18 {
            NamedTokenType::SurfaceIntegrator
        } else {
            NamedTokenType::VolumeIntegrator
        }
    }

    /// The word as it is written.
    pub fn word(&self) -> (word: &'static [u8])
        ensures
            word@ == self.text(),
    {
        match self {
            NamedTokenType::Accelerator => "Accelerator".as_bytes(),
            NamedTokenType::AreaLightSource => "AreaLightSource".as_bytes(),
            NamedTokenType::Camera => "Camera".as_bytes(),
            NamedTokenType::CoordSys => "CoordSys".as_bytes(),
            NamedTokenType::CoordSysTransform => "CoordSysTransform".as_bytes(),
            NamedTokenType::Film => "Film".as_bytes(),
            NamedTokenType::Integrator => "Integrator".as_bytes(),
            NamedTokenType::LightSource => "LightSource".as_bytes(),
            NamedTokenType::MakeNamedMaterial => "MakeNamedMaterial".as_bytes(),
            NamedTokenType::MakeNamedMedium => "MakeNamedMedium".as_bytes(),
            NamedTokenType::Material => "Material".as_bytes(),
            NamedTokenType::NamedMaterial => "NamedMaterial".as_bytes(),
            NamedTokenType::Include => "Include".as_bytes(),
            NamedTokenType::PixelFilter => "PixelFilter".as_bytes(),
            NamedTokenType::Sampler => "Sampler".as_bytes(),
            NamedTokenType::Shape => "Shape".as_bytes(),
            NamedTokenType::ObjectInstance => "ObjectInstance".as_bytes(),
            NamedTokenType::ObjectBegin => "ObjectBegin".as_bytes(),
            NamedTokenType::SurfaceIntegrator => "SurfaceIntegrator".as_bytes(),
            NamedTokenType::VolumeIntegrator => "VolumeIntegrator".as_bytes(),
        }
    }

    /// The word at a place in the order in which the words are tried.
    pub fn ranked(rank: usize) -> (kind: NamedTokenType)
        requires
            rank < 20,
        ensures
            kind.rank() == rank,
            kind == NamedTokenType::of_rank(rank as int),
    {
        if rank == 0 {
            NamedTokenType::Accelerator
        } else if rank == 1 {
            NamedTokenType::AreaLightSource
        } else if rank == 2 {
            NamedTokenType::Camera
        } else if rank == 3 {
            NamedTokenType::CoordSysTransform
        } else if rank == 4 {
            NamedTokenType::CoordSys
        } else if rank == 5 {
            NamedTokenType::Film
        } else if rank == 6 {
            NamedTokenType::Integrator
        } else if rank == 7 {
            NamedTokenType::LightSource
        } else if rank == 8 {
            NamedTokenType::MakeNamedMaterial
        } else if rank == 9 {
            NamedTokenType::MakeNamedMedium
        } else if rank == 10 {
            NamedTokenType::Material
        } else if rank == 11 {
            NamedTokenType::NamedMaterial
        } else if rank == 12 {
            NamedTokenType::Include
        } else if rank == 13 {
            NamedTokenType::PixelFilter
        } else if rank == 14 {
            NamedTokenType::Sampler
        } else if rank == 15 {
            NamedTokenType::Shape
        } else if rank == 16 {
            NamedTokenType::ObjectInstance
        } else if rank == 17 {
            NamedTokenType::ObjectBegin
        } else if rank == 18 {
            NamedTokenType::SurfaceIntegrator
        } else {
            NamedTokenType::VolumeIntegrator
        }
    }
}

/// What reading the word that opens a named statement gives when the words
/// below `rank` do not stand at `at`: the first of the others that does,
/// with the place behind it.
pub open spec fn named_token_type_from(input: Seq<u8>, at: usize, rank: int) -> Result<
    (usize, NamedTokenType),
    ParseError,
>
    decreases 20 - rank,
{
    if rank < 0 || rank >= 20 {
        Err(ParseError::Error)
    } else {
        match tag_at(input, at, NamedTokenType::of_rank(rank).text()) {
            Ok(end) => Ok((end, NamedTokenType::of_rank(rank))),
            Err(_) => named_token_type_from(input, at, rank + 1),
        }
    }
}

/// What reading the word that opens a named statement gives.
pub open spec fn named_token_type_at(input: Seq<u8>, at: usize) -> Result<
    (usize, NamedTokenType),
    ParseError,
> {
    named_token_type_from(input, at, 0)
}

/// Reads the word that opens a named statement: the first, in the order of
/// their ranks, that stands at `at`.
pub fn parse_named_token_type(input: &[u8], at: usize) -> (out: Result<
    (usize, NamedTokenType),
    ParseError,
>)
    requires
        at <= input@.len(),
    ensures
        out == named_token_type_at(input@, at),
        match out {
            Ok((end, kind)) => {
                &&& has_word_at(input@, at as int, kind.text())
                &&& end == at + kind.text().len()
                &&& forall|other: NamedTokenType|
                    other.rank() < kind.rank() ==> !has_word_at(
                        input@,
                        at as int,
                        #[trigger] other.text(),
                    )
            },
            Err(e) => e == ParseError::Error && forall|other: NamedTokenType|
                !has_word_at(input@, at as int, #[trigger] other.text()),
        },
{
    let mut rank: usize = 0;
    while rank < 20
        invariant
            rank <= 20,
            at <= input@.len(),
            named_token_type_at(input@, at) == named_token_type_from(input@, at, rank as int),
            forall|other: NamedTokenType|
                other.rank() < rank ==> !has_word_at(input@, at as int, #[trigger] other.text()),
        decreases 20 - rank,
    {
        let kind = NamedTokenType::ranked(rank);
        match tag(input, at, kind.word()) {
            Ok(end) => {
                return Ok((end, kind));
            },
            Err(_) => {
                assert forall|other: NamedTokenType| other.rank() < rank + 1 implies !has_word_at(
                    input@,
                    at as int,
                    #[trigger] other.text(),
                ) by {
                    if other.rank() == rank {
                        assert(other == kind);
                    }
                }
            },
        }
        rank = rank + 1;
    }
    Err(ParseError::Error)
}

} // verus!
