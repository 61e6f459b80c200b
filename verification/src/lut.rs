//! The table set that a `.cube` file describes, and its reader.
use vstd::prelude::*;

use crate::cube::{Cube, CubeView};
use crate::decode::{is_decoder, numbers};
use crate::error::{Error, ErrorView};
use crate::parser::{Parser, State, Step};

verus! {

/// The mathematical content of a [`Lut`].
pub struct LutView {
    /// The text of the `TITLE` directive, if there was one.
    pub title: Option<Seq<char>>,
    /// The comment lines, joined by single newlines, in the order of the file.
    pub comments: Seq<char>,
    /// Whether `LUT_IN_VIDEO_RANGE` was given.
    pub in_video_range: bool,
    /// Whether `LUT_OUT_VIDEO_RANGE` was given.
    pub out_video_range: bool,
    /// The primary table.
    pub cube: CubeView,
    /// The table applied before the primary one, if the file holds two.
    pub shaper: Option<CubeView>,
    /// The bound given by `DOMAIN_MIN`, if any.
    pub domain_min: Option<[u32; 3]>,
    /// The bound given by `DOMAIN_MAX`, if any.
    pub domain_max: Option<[u32; 3]>,
}

impl LutView {
    /// Well-formedness: both tables are well-formed.
    pub open spec fn wf(self) -> bool {
        &&& self.cube.wf()
        &&& self.shaper matches Some(shaper) ==> shaper.wf()
    }
}

/// The content of an optional string.
pub open spec fn text_of(text: Option<String>) -> Option<Seq<char>> {
    match text {
        Some(t) => Some(t@),
        None => None,
    }
}

/// The content of an optional table.
pub open spec fn cube_of(cube: Option<Cube>) -> Option<CubeView> {
    match cube {
        Some(c) => Some(c@),
        None => None,
    }
}

/// The texts of `lines`, in order.
pub open spec fn texts(lines: Seq<String>) -> Seq<Seq<char>> {
    Seq::new(lines.len(), |i: int| lines[i]@)
}

/// What a finished run gave, as mathematical content.
pub open spec fn outcome(r: Result<Lut, Error>) -> Result<LutView, ErrorView> {
    match r {
        Ok(lut) => Ok(lut@),
        Err(e) => Err(e@),
    }
}

/// What a `.cube` file holds: the primary table, an optional shaper and the
/// metadata of the header.
#[derive(Debug)]
pub struct Lut {
    title: Option<String>,
    comments: String,
    in_video_range: bool,
    out_video_range: bool,
    cube: Cube,
    shaper: Option<Cube>,
    domain_min: Option<[u32; 3]>,
    domain_max: Option<[u32; 3]>,
}

impl View for Lut {
    type V = LutView;

    closed spec fn view(&self) -> LutView {
        LutView {
            title: text_of(self.title),
            comments: self.comments@,
            in_video_range: self.in_video_range,
            out_video_range: self.out_video_range,
            cube: self.cube@,
            shaper: cube_of(self.shaper),
            domain_min: self.domain_min,
            domain_max: self.domain_max,
        }
    }
}

impl Lut {
    /// Puts a finished table set together.
    pub(crate) fn assemble(
        title: Option<String>,
        comments: String,
        in_video_range: bool,
        out_video_range: bool,
        cube: Cube,
        shaper: Option<Cube>,
        domain_min: Option<[u32; 3]>,
        domain_max: Option<[u32; 3]>,
    ) -> (lut: Lut)
        ensures
            lut@ == (LutView {
                title: text_of(title),
                comments: comments@,
                in_video_range,
                out_video_range,
                cube: cube@,
                shaper: cube_of(shaper),
                domain_min,
                domain_max,
            }),
    {
        Lut {
            title,
            comments,
            in_video_range,
            out_video_range,
            cube,
            shaper,
            domain_min,
            domain_max,
        }
    }

    /// The text of the `TITLE` directive, if there was one.
    pub fn title(&self) -> (title: Option<&str>)
        ensures
            match title {
                Some(t) => self@.title == Some(t@),
                None => self@.title is None,
            },
    {
        match &self.title {
            Some(t) => Some(t.as_str()),
            None => None,
        }
    }

    /// The comment lines, joined by single newlines.
    pub fn comments(&self) -> (comments: &str)
        ensures
            comments@ == self@.comments,
    {
        self.comments.as_str()
    }

    /// Whether `LUT_IN_VIDEO_RANGE` was given.
    pub fn in_video_range(&self) -> (flag: bool)
        ensures
            flag == self@.in_video_range,
    {
        self.in_video_range
    }

    /// Whether `LUT_OUT_VIDEO_RANGE` was given.
    pub fn out_video_range(&self) -> (flag: bool)
        ensures
            flag == self@.out_video_range,
    {
        self.out_video_range
    }

    /// The primary table.
    pub fn cube(&self) -> (cube: &Cube)
        ensures
            cube@ == self@.cube,
    {
        &self.cube
    }

    /// The table applied before the primary one, if the file holds two.
    pub fn shaper(&self) -> (shaper: Option<&Cube>)
        ensures
            match shaper {
                Some(s) => self@.shaper == Some(s@),
                None => self@.shaper is None,
            },
    {
        self.shaper.as_ref()
    }

    /// The bound given by `DOMAIN_MIN`, if any.
    pub fn domain_min(&self) -> (bound: Option<&[u32; 3]>)
        ensures
            match bound {
                Some(b) => self@.domain_min == Some(*b),
                None => self@.domain_min is None,
            },
    {
        self.domain_min.as_ref()
    }

    /// The bound given by `DOMAIN_MAX`, if any.
    pub fn domain_max(&self) -> (bound: Option<&[u32; 3]>)
        ensures
            match bound {
                Some(b) => self@.domain_max == Some(*b),
                None => self@.domain_max is None,
            },
    {
        self.domain_max.as_ref()
    }

    /// Reads a table set from the lines of a `.cube` file.
    ///
    /// The lines are fed to a fresh [`Parser`] one after the other, each
    /// number decoded by `decode`. The result is that of the first line that
    /// completes the primary table or fails; lines after it are not looked at.
    /// Where the lines run out first, the result is `Eof`. In all, the result
    /// is [`State::run`] of the lines from [`State::start`].
    pub fn parse<F: Fn(&str) -> Option<u32>>(lines: &[String], decode: F) -> (r: Result<Lut, Error>)
        requires
            is_decoder(decode),
        ensures
            outcome(r) == State::start().run(texts(lines@), numbers(decode)),
    {
        let ghost all = texts(lines@);
        let ghost number = numbers(decode);
        let mut parser = Parser::new();
        let mut i: usize = 0;
        assert(all.skip(0) == all);
        while i < lines.len()
            invariant
                i <= lines.len(),
                is_decoder(decode),
                all == texts(lines@),
                number == numbers(decode),
                State::start().run(all, number) == parser@.run(all.skip(i as int), number),
            decreases lines.len() - i,
        {
            proof {
                assert(all.skip(i as int)[0] == lines@[i as int]@);
                assert(all.skip(i as int).drop_first() == all.skip(i + 1));
            }
            match parser.feed(lines[i].as_str(), &decode) {
                Step::More(next) => {
                    parser = next;
                },
                Step::Done(lut) => {
                    return Ok(lut);
                },
                Step::Failed(e) => {
                    return Err(e);
                },
            }
            i += 1;
        }
        Err(parser.end())
    }
}

} // verus!
