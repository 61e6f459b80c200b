//! The rules by which the lines of a `.cube` file build a table set.
//!
//! [`State`] is what has been read so far, and [`State::feed`] says what one
//! more line makes of it. [`Parser`] is the same thing in executable form.
use vstd::prelude::*;
use vstd::string::*;

use crate::collector::{Collector, CollectorView};
use crate::cube::{
    addressable, input_range_of, is_addressable, parse_input_range, Cube, CubeView,
};
use crate::decode::{ask, is_decoder, numbers};
use crate::error::{Error, ErrorView};
use crate::lut::{cube_of, text_of, Lut, LutView};
use crate::text::{cut, read_size, same_text, size_value, split_once, trim, trimmed};

verus! {

/// The three numbers of a row: `first`, then what stands before the first
/// delimiter of `rest`, then what stands after it. `None` where `rest` holds
/// no delimiter or one of the three is no number to `number`.
pub open spec fn triple(
    first: Seq<char>,
    rest: Seq<char>,
    number: spec_fn(Seq<char>) -> Option<u32>,
) -> Option<[u32; 3]> {
    match split_once(rest) {
        Some((second, third)) => match (number(first), number(second), number(third)) {
            (Some(r), Some(g), Some(b)) => Some([r, g, b]),
            _ => None,
        },
        None => None,
    }
}

/// The comments so far with one more comment line: the line alone where there
/// were none, else the two joined by a newline.
pub open spec fn join_comment(comments: Seq<char>, line: Seq<char>) -> Seq<char> {
    if comments.len() == 0 {
        line
    } else {
        comments + seq!['\n'] + line
    }
}

/// What has been read of a file so far.
pub struct State {
    /// The text of the last `TITLE` directive.
    pub title: Option<Seq<char>>,
    /// The comment lines so far, joined by newlines.
    pub comments: Seq<char>,
    /// Whether `LUT_IN_VIDEO_RANGE` was seen.
    pub in_video_range: bool,
    /// Whether `LUT_OUT_VIDEO_RANGE` was seen.
    pub out_video_range: bool,
    /// The table declared last and not yet being filled.
    pub cube: Option<CubeView>,
    /// Before the first row: the table declared before the last one. After
    /// it: the shaper, once it is complete.
    pub shaper: Option<CubeView>,
    /// The collector of the table being filled; `None` before the first row.
    pub collector: Option<CollectorView>,
    /// The bound given by the last `DOMAIN_MIN`.
    pub domain_min: Option<[u32; 3]>,
    /// The bound given by the last `DOMAIN_MAX`.
    pub domain_max: Option<[u32; 3]>,
}

/// What one line makes of a [`State`].
pub enum Progress {
    /// The line is taken in; the next one may follow.
    More(State),
    /// The line completed the primary table.
    Done(LutView),
    /// The line cannot be accepted.
    Failed(ErrorView),
}

impl State {
    /// Nothing read yet.
    pub open spec fn start() -> State {
        State {
            title: None,
            comments: Seq::empty(),
            in_video_range: false,
            out_video_range: false,
            cube: None,
            shaper: None,
            collector: None,
            domain_min: None,
            domain_max: None,
        }
    }

    /// Well-formedness: every table held is well-formed, and an open
    /// collector is well-formed and holds its table.
    pub open spec fn wf(self) -> bool {
        &&& self.cube matches Some(cube) ==> cube.wf()
        &&& self.shaper matches Some(shaper) ==> shaper.wf()
        &&& self.collector matches Some(collector) ==> collector.wf() && collector.cube is Some
    }

    /// The table set with `cube` as its primary table and everything else
    /// from this state.
    pub open spec fn finish(self, cube: CubeView) -> LutView {
        LutView {
            title: self.title,
            comments: self.comments,
            in_video_range: self.in_video_range,
            out_video_range: self.out_video_range,
            cube,
            shaper: self.shaper,
            domain_min: self.domain_min,
            domain_max: self.domain_max,
        }
    }

    /// A size directive of dimension `dim` with the argument `text`.
    ///
    /// The argument must be an unsigned 16-bit decimal number, and a table of
    /// three dimensions must be addressable: else `InvalidSize`, holding the
    /// argument. The new table, all zero, becomes the pending one; a table
    /// that was pending before becomes the shaper.
    pub open spec fn declare(self, dim: u8, text: Seq<char>) -> Progress {
        match size_value(text) {
            Some(size) if dim == 1 || addressable(size) => Progress::More(
                State {
                    cube: Some(CubeView::zeroed(dim, size)),
                    shaper: if self.cube is Some {
                        self.cube
                    } else {
                        self.shaper
                    },
                    ..self
                },
            ),
            _ => Progress::Failed(ErrorView::InvalidSize(text)),
        }
    }

    /// An input-range directive with the argument `text`.
    ///
    /// Without a pending table: `UnexpectedInputRange`, holding the line. With
    /// an argument that is no range: `InvalidInputRange`, holding the
    /// argument. Else the pending table gets the range.
    pub open spec fn range(
        self,
        line: Seq<char>,
        text: Seq<char>,
        number: spec_fn(Seq<char>) -> Option<u32>,
    ) -> Progress {
        match self.cube {
            None => Progress::Failed(ErrorView::UnexpectedInputRange(line)),
            Some(cube) => match input_range_of(text, number) {
                None => Progress::Failed(ErrorView::InvalidInputRange(text)),
                Some(range) => Progress::More(
                    State { cube: Some(CubeView { input_range: Some(range), ..cube }), ..self },
                ),
            },
        }
    }

    /// A `DOMAIN_MIN` (`lower`) or `DOMAIN_MAX` directive with the argument
    /// `text`: three numbers, else `InvalidRgb`, holding the line.
    pub open spec fn domain(
        self,
        lower: bool,
        line: Seq<char>,
        text: Seq<char>,
        number: spec_fn(Seq<char>) -> Option<u32>,
    ) -> Progress {
        match split_once(text) {
            Some((first, rest)) => match triple(first, rest, number) {
                Some(rgb) => if lower {
                    Progress::More(State { domain_min: Some(rgb), ..self })
                } else {
                    Progress::More(State { domain_max: Some(rgb), ..self })
                },
                None => Progress::Failed(ErrorView::InvalidRgb(line)),
            },
            None => Progress::Failed(ErrorView::InvalidRgb(line)),
        }
    }

    /// The row `rgb` goes into `collector`, the collector of the table being
    /// filled.
    ///
    /// A collector without room: `CubeIsFull`. A row that leaves room takes
    /// the run one line further. A row that completes the table either ends
    /// the run, the table being the primary one, or, where another table is
    /// pending, makes the table the shaper and opens the pending one.
    pub open spec fn collect(self, collector: CollectorView, rgb: [u32; 3]) -> Progress {
        let pushed = collector.push(rgb);
        match pushed.1 {
            Err(e) => Progress::Failed(e),
            Ok(None) => Progress::More(State { collector: Some(pushed.0), ..self }),
            Ok(Some(done)) => match self.cube {
                Some(next) => Progress::More(
                    State {
                        shaper: Some(done),
                        cube: None,
                        collector: Some(CollectorView::with_cube(next)),
                        ..self
                    },
                ),
                None => Progress::Done(self.finish(done)),
            },
        }
    }

    /// The first row of samples: `head` and the two numbers in `tail`.
    ///
    /// No three numbers: `InvalidRgb`, holding the line. No table pending:
    /// `UnexpectedData`. Else a collector is opened, over the shaper where two
    /// tables are pending and over the pending table where one is, and the
    /// row goes into it.
    pub open spec fn first_row(
        self,
        line: Seq<char>,
        head: Seq<char>,
        tail: Seq<char>,
        number: spec_fn(Seq<char>) -> Option<u32>,
    ) -> Progress {
        match triple(head, tail, number) {
            None => Progress::Failed(ErrorView::InvalidRgb(line)),
            Some(rgb) => match (self.shaper, self.cube) {
                (Some(shaper), _) => (State { shaper: None, ..self }).collect(
                    CollectorView::with_cube(shaper),
                    rgb,
                ),
                (None, Some(cube)) => (State { cube: None, ..self }).collect(
                    CollectorView::with_cube(cube),
                    rgb,
                ),
                (None, None) => Progress::Failed(ErrorView::UnexpectedData),
            },
        }
    }

    /// A row of samples while `collector` fills a table: `head` and the two
    /// numbers in `tail`. No three numbers: `InvalidRgb`, holding the line.
    pub open spec fn row(
        self,
        collector: CollectorView,
        line: Seq<char>,
        head: Seq<char>,
        tail: Seq<char>,
        number: spec_fn(Seq<char>) -> Option<u32>,
    ) -> Progress {
        match triple(head, tail, number) {
            None => Progress::Failed(ErrorView::InvalidRgb(line)),
            Some(rgb) => self.collect(collector, rgb),
        }
    }

    /// A line of the header that holds a delimiter: `head` before it, `tail`
    /// after it. The directives are a closed set of exact names; any other
    /// `head` starts the first row of samples.
    pub open spec fn header(
        self,
        line: Seq<char>,
        head: Seq<char>,
        tail: Seq<char>,
        number: spec_fn(Seq<char>) -> Option<u32>,
    ) -> Progress {
        if head == "TITLE"@ {
            Progress::More(State { title: Some(tail), ..self })
        } else if head == "LUT_IN_VIDEO_RANGE"@ {
            Progress::More(State { in_video_range: true, ..self })
        } else if head == "LUT_OUT_VIDEO_RANGE"@ {
            Progress::More(State { out_video_range: true, ..self })
        } else if head == "LUT_1D_SIZE"@ {
            self.declare(1, tail)
        } else if head == "LUT_3D_SIZE"@ {
            self.declare(3, tail)
        } else if head == "LUT_1D_INPUT_RANGE"@ || head == "LUT_3D_INPUT_RANGE"@ {
            self.range(line, tail, number)
        } else if head == "DOMAIN_MIN"@ {
            self.domain(true, line, tail, number)
        } else if head == "DOMAIN_MAX"@ {
            self.domain(false, line, tail, number)
        } else {
            self.first_row(line, head, tail, number)
        }
    }

    /// A line of the header that holds no delimiter: the one word `word`.
    ///
    /// The two flag directives stand alone: `LUT_IN_VIDEO_RANGE` sets the
    /// one flag and `LUT_OUT_VIDEO_RANGE` the other. Any other word changes
    /// nothing.
    pub open spec fn bare(self, word: Seq<char>) -> State {
        if word == "LUT_IN_VIDEO_RANGE"@ {
            State { in_video_range: true, ..self }
        } else if word == "LUT_OUT_VIDEO_RANGE"@ {
            State { out_video_range: true, ..self }
        } else {
            self
        }
    }

    /// One line.
    ///
    /// The line is trimmed first. An empty line changes nothing. A line that
    /// starts with `#` is added to the comments, whatever the state. Of the
    /// other lines, one without a delimiter is a bare word of the header
    /// before the first row and is no row once a collector is open:
    /// `InvalidRgb`, holding the line. One with a delimiter is a row once a
    /// collector is open, and a line of the header before.
    pub open spec fn feed(
        self,
        line: Seq<char>,
        number: spec_fn(Seq<char>) -> Option<u32>,
    ) -> Progress {
        let s = trim(line);
        if s.len() == 0 {
            Progress::More(self)
        } else if s[0] == '#' {
            Progress::More(State { comments: join_comment(self.comments, s), ..self })
        } else {
            match (split_once(s), self.collector) {
                (None, None) => Progress::More(self.bare(s)),
                (None, Some(_)) => Progress::Failed(ErrorView::InvalidRgb(line)),
                (Some((head, tail)), None) => self.header(line, head, tail, number),
                (Some((head, tail)), Some(collector)) => self.row(
                    collector,
                    line,
                    head,
                    tail,
                    number,
                ),
            }
        }
    }

    /// The end of the lines: whatever has been read, the primary table is not
    /// complete, so the run fails with `Eof`.
    pub open spec fn end(self) -> ErrorView {
        ErrorView::Eof
    }

    /// The lines of a file, fed one after the other: the table set of the
    /// first line that completes the primary table, or the failure of the
    /// first line that fails, or `Eof` where the lines run out before either.
    pub open spec fn run(
        self,
        lines: Seq<Seq<char>>,
        number: spec_fn(Seq<char>) -> Option<u32>,
    ) -> Result<LutView, ErrorView>
        decreases lines.len(),
    {
        if lines.len() == 0 {
            Err(self.end())
        } else {
            match self.feed(lines[0], number) {
                Progress::More(next) => next.run(lines.drop_first(), number),
                Progress::Done(lut) => Ok(lut),
                Progress::Failed(e) => Err(e),
            }
        }
    }
}

/// The reader of a `.cube` file between two of its lines.
#[derive(Debug)]
pub struct Parser {
    title: Option<String>,
    comments: String,
    in_video_range: bool,
    out_video_range: bool,
    cube: Option<Cube>,
    shaper: Option<Cube>,
    collector: Option<Collector>,
    domain_min: Option<[u32; 3]>,
    domain_max: Option<[u32; 3]>,
}

impl View for Parser {
    type V = State;

    closed spec fn view(&self) -> State {
        State {
            title: text_of(self.title),
            comments: self.comments@,
            in_video_range: self.in_video_range,
            out_video_range: self.out_video_range,
            cube: cube_of(self.cube),
            shaper: cube_of(self.shaper),
            collector: match self.collector {
                Some(c) => Some(c@),
                None => None,
            },
            domain_min: self.domain_min,
            domain_max: self.domain_max,
        }
    }
}

/// What [`Parser::feed`] gives for one line.
#[derive(Debug)]
pub enum Step {
    /// The line is taken in; feed the next one to this parser.
    More(Parser),
    /// The line completed the primary table.
    Done(Lut),
    /// The line cannot be accepted.
    Failed(Error),
}

impl View for Step {
    type V = Progress;

    open spec fn view(&self) -> Progress {
        match self {
            Step::More(parser) => Progress::More(parser@),
            Step::Done(lut) => Progress::Done(lut@),
            Step::Failed(e) => Progress::Failed(e@),
        }
    }
}

/// Reads the three numbers of a row.
fn read_triple<F: Fn(&str) -> Option<u32>>(first: &str, rest: &str, decode: &F) -> (rgb: Option<
    [u32; 3],
>)
    requires
        is_decoder(*decode),
    ensures
        rgb == triple(first@, rest@, numbers(*decode)),
{
    match cut(rest) {
        Some((second, third)) => {
            let r = ask(decode, first);
            let g = ask(decode, second);
            let b = ask(decode, third);
            match (r, g, b) {
                (Some(r), Some(g), Some(b)) => Some([r, g, b]),
                _ => None,
            }
        },
        None => None,
    }
}

impl Parser {
    /// A parser that has read nothing yet.
    pub fn new() -> (parser: Parser)
        ensures
            parser@ == State::start(),
    {
        Parser {
            title: None,
            comments: String::new(),
            in_video_range: false,
            out_video_range: false,
            cube: None,
            shaper: None,
            collector: None,
            domain_min: None,
            domain_max: None,
        }
    }

    /// Takes in a size directive of dimension `dim`.
    fn declare(self, dim: u8, text: &str) -> (step: Step)
        requires
            dim == 1 || dim == 3,
        ensures
            step@ == self@.declare(dim, text@),
    {
        let mut parser = self;
        match read_size(text) {
            Some(size) if dim == 1 || is_addressable(size) => {
                let cube = if dim == 1 {
                    Cube::one_d(size)
                } else {
                    Cube::three_d(size)
                };
                if parser.cube.is_some() {
                    parser.shaper = parser.cube.take();
                }
                parser.cube = Some(cube);
                Step::More(parser)
            },
            _ => Step::Failed(Error::InvalidSize(text.to_owned())),
        }
    }

    /// Takes in an input-range directive.
    fn range<F: Fn(&str) -> Option<u32>>(self, line: &str, text: &str, decode: &F) -> (step: Step)
        requires
            is_decoder(*decode),
        ensures
            step@ == self@.range(line@, text@, numbers(*decode)),
    {
        let mut parser = self;
        match parser.cube.take() {
            None => Step::Failed(Error::UnexpectedInputRange(line.to_owned())),
            Some(mut cube) => match parse_input_range(text, decode) {
                Err(e) => Step::Failed(e),
                Ok(range) => {
                    cube.set_input_range(Some(range));
                    parser.cube = Some(cube);
                    Step::More(parser)
                },
            },
        }
    }

    /// Takes in a `DOMAIN_MIN` (`lower`) or `DOMAIN_MAX` directive.
    fn domain<F: Fn(&str) -> Option<u32>>(
        self,
        lower: bool,
        line: &str,
        text: &str,
        decode: &F,
    ) -> (step: Step)
        requires
            is_decoder(*decode),
        ensures
            step@ == self@.domain(lower, line@, text@, numbers(*decode)),
    {
        let mut parser = self;
        let rgb = match cut(text) {
            Some((first, rest)) => read_triple(first, rest, decode),
            None => None,
        };
        match rgb {
            Some(rgb) => {
                if lower {
                    parser.domain_min = Some(rgb);
                } else {
                    parser.domain_max = Some(rgb);
                }
                Step::More(parser)
            },
            None => Step::Failed(Error::InvalidRgb(line.to_owned())),
        }
    }

    /// Pushes a row into the collector of the table being filled.
    fn collect(self, collector: Collector, rgb: &[u32; 3]) -> (step: Step)
        ensures
            step@ == self@.collect(collector@, *rgb),
    {
        let mut parser = self;
        let mut collector = collector;
        match collector.push(rgb) {
            Err(e) => Step::Failed(e),
            Ok(None) => {
                parser.collector = Some(collector);
                Step::More(parser)
            },
            Ok(Some(done)) => match parser.cube.take() {
                Some(next) => {
                    parser.shaper = Some(done);
                    parser.collector = Some(Collector::with_cube(next));
                    Step::More(parser)
                },
                None => Step::Done(
                    Lut::assemble(
                        parser.title,
                        parser.comments,
                        parser.in_video_range,
                        parser.out_video_range,
                        done,
                        parser.shaper,
                        parser.domain_min,
                        parser.domain_max,
                    ),
                ),
            },
        }
    }

    /// Takes in the first row of samples.
    fn first_row<F: Fn(&str) -> Option<u32>>(
        self,
        line: &str,
        head: &str,
        tail: &str,
        decode: &F,
    ) -> (step: Step)
        requires
            is_decoder(*decode),
        ensures
            step@ == self@.first_row(line@, head@, tail@, numbers(*decode)),
    {
        let mut parser = self;
        match read_triple(head, tail, decode) {
            None => Step::Failed(Error::InvalidRgb(line.to_owned())),
            Some(rgb) => {
                if let Some(shaper) = parser.shaper.take() {
                    parser.collect(Collector::with_cube(shaper), &rgb)
                } else if let Some(cube) = parser.cube.take() {
                    parser.collect(Collector::with_cube(cube), &rgb)
                } else {
                    Step::Failed(Error::UnexpectedData)
                }
            },
        }
    }

    /// Takes in a row of samples while a table is being filled.
    fn row<F: Fn(&str) -> Option<u32>>(
        self,
        collector: Collector,
        line: &str,
        head: &str,
        tail: &str,
        decode: &F,
    ) -> (step: Step)
        requires
            is_decoder(*decode),
        ensures
            step@ == self@.row(collector@, line@, head@, tail@, numbers(*decode)),
    {
        match read_triple(head, tail, decode) {
            None => Step::Failed(Error::InvalidRgb(line.to_owned())),
            Some(rgb) => self.collect(collector, &rgb),
        }
    }

    /// Takes in a line of the header that holds no delimiter.
    fn bare(self, word: &str) -> (parser: Parser)
        ensures
            parser@ == self@.bare(word@),
    {
        let mut parser = self;
        if same_text(word, "LUT_IN_VIDEO_RANGE") {
            parser.in_video_range = true;
        } else if same_text(word, "LUT_OUT_VIDEO_RANGE") {
            parser.out_video_range = true;
        }
        parser
    }

    /// Takes in a line of the header that holds a delimiter.
    fn header<F: Fn(&str) -> Option<u32>>(
        self,
        line: &str,
        head: &str,
        tail: &str,
        decode: &F,
    ) -> (step: Step)
        requires
            is_decoder(*decode),
        ensures
            step@ == self@.header(line@, head@, tail@, numbers(*decode)),
    {
        let mut parser = self;
        if same_text(head, "TITLE") {
            parser.title = Some(tail.to_owned());
            Step::More(parser)
        } else if same_text(head, "LUT_IN_VIDEO_RANGE") {
            parser.in_video_range = true;
            Step::More(parser)
        } else if same_text(head, "LUT_OUT_VIDEO_RANGE") {
            parser.out_video_range = true;
            Step::More(parser)
        } else if same_text(head, "LUT_1D_SIZE") {
            parser.declare(1, tail)
        } else if same_text(head, "LUT_3D_SIZE") {
            parser.declare(3, tail)
        } else if same_text(head, "LUT_1D_INPUT_RANGE") || same_text(head, "LUT_3D_INPUT_RANGE") {
            parser.range(line, tail, decode)
        } else if same_text(head, "DOMAIN_MIN") {
            parser.domain(true, line, tail, decode)
        } else if same_text(head, "DOMAIN_MAX") {
            parser.domain(false, line, tail, decode)
        } else {
            parser.first_row(line, head, tail, decode)
        }
    }

    /// Ends the run where the lines ran out: the failure to report.
    pub fn end(self) -> (e: Error)
        ensures
            e@ == self@.end(),
    {
        Error::Eof
    }

    /// Takes in one line, its numbers decoded by `decode`.
    ///
    /// What comes of it is [`State::feed`] of the line.
    pub fn feed<F: Fn(&str) -> Option<u32>>(self, line: &str, decode: &F) -> (step: Step)
        requires
            is_decoder(*decode),
        ensures
            step@ == self@.feed(line@, numbers(*decode)),
    {
        let mut parser = self;
        let s = trimmed(line);
        if s.is_empty() {
            return Step::More(parser);
        }
        if s.get_char(0) == '#' {
            if !parser.comments.as_str().is_empty() {
                proof {
                    reveal_strlit("\n");
                }
                parser.comments.append("\n");
                assert("\n"@ == seq!['\n']);
            }
            parser.comments.append(s);
            return Step::More(parser);
        }
        match (cut(s), parser.collector.take()) {
            (None, None) => Step::More(parser.bare(s)),
            (None, Some(_)) => Step::Failed(Error::InvalidRgb(line.to_owned())),
            (Some((head, tail)), None) => parser.header(line, head, tail, decode),
            (Some((head, tail)), Some(collector)) => parser.row(
                collector,
                line,
                head,
                tail,
                decode,
            ),
        }
    }
}

} // verus!
