//! Laws of a run over the lines of a file.
use vstd::prelude::*;

use crate::collector::CollectorView;
use crate::cube::CubeView;
use crate::error::ErrorView;
use crate::laws::tables::{
    law_fresh_is_well_formed, law_push_keeps_well_formed, law_whole_rows, law_write_keeps_shape,
    samples,
};
use crate::lut::LutView;
use crate::parser::{join_comment, triple, Progress, State};
use crate::text::{head_len, is_delimiter, split_once, trim};

verus! {

/// Whether `line` is a comment: its first character, once it is trimmed, is
/// `#`.
pub open spec fn is_comment(line: Seq<char>) -> bool {
    trim(line).len() > 0 && trim(line)[0] == '#'
}

/// Whether `line` is an entry: trimmed it is not empty, no comment, and holds
/// a delimiter. Only an entry can be a directive or a row.
pub open spec fn is_entry(line: Seq<char>) -> bool {
    trim(line).len() > 0 && trim(line)[0] != '#' && split_once(trim(line)) is Some
}

/// How many of `lines` are entries.
pub open spec fn entries(lines: Seq<Seq<char>>) -> nat
    decreases lines.len(),
{
    if lines.len() == 0 {
        0
    } else if is_entry(lines[0]) {
        1 + entries(lines.drop_first())
    } else {
        entries(lines.drop_first())
    }
}

/// `comments` with the comments among `lines` joined to it, in order.
pub open spec fn gather(comments: Seq<char>, lines: Seq<Seq<char>>) -> Seq<char>
    decreases lines.len(),
{
    if lines.len() == 0 {
        comments
    } else if is_comment(lines[0]) {
        gather(join_comment(comments, trim(lines[0])), lines.drop_first())
    } else {
        gather(comments, lines.drop_first())
    }
}

/// How many of `lines` a run from `state` reads: all of them, or those up to
/// and with the line that ends it.
pub open spec fn consumed(
    state: State,
    lines: Seq<Seq<char>>,
    number: spec_fn(Seq<char>) -> Option<u32>,
) -> nat
    decreases lines.len(),
{
    if lines.len() == 0 {
        0
    } else {
        match state.feed(lines[0], number) {
            Progress::More(next) => 1 + consumed(next, lines.drop_first(), number),
            _ => 1,
        }
    }
}

/// Whether no line of `lines` fails in a run from `state`.
pub open spec fn accepted(
    state: State,
    lines: Seq<Seq<char>>,
    number: spec_fn(Seq<char>) -> Option<u32>,
) -> bool
    decreases lines.len(),
{
    if lines.len() == 0 {
        true
    } else {
        match state.feed(lines[0], number) {
            Progress::More(next) => accepted(next, lines.drop_first(), number),
            Progress::Done(_) => true,
            Progress::Failed(_) => false,
        }
    }
}

/// How many rows a state with an open collector still lacks: those that the
/// table being filled has room for, and those of the table that waits.
pub open spec fn missing(state: State) -> nat
    recommends
        state.collector is Some,
{
    let collector = state.collector->0;
    let waiting = match state.cube {
        Some(cube) => cube.rgbs.len() / 3,
        None => 0,
    };
    ((collector.capacity - collector.len) / 3) as nat + waiting
}

/// A line keeps a state well-formed, and a table set that it completes is
/// well-formed.
pub proof fn law_feed_keeps_well_formed(
    state: State,
    line: Seq<char>,
    number: spec_fn(Seq<char>) -> Option<u32>,
)
    requires
        state.wf(),
    ensures
        match state.feed(line, number) {
            Progress::More(next) => next.wf(),
            Progress::Done(lut) => lut.wf(),
            Progress::Failed(_) => true,
        },
{
    let s = trim(line);
    if s.len() > 0 && s[0] != '#' && split_once(s) is Some {
        let (head, tail) = split_once(s)->0;
        match state.collector {
            Some(collector) => {
                if triple(head, tail, number) is Some {
                    lemma_collect_keeps_well_formed(
                        state,
                        collector,
                        triple(head, tail, number)->0,
                    );
                }
            },
            None => {
                assert forall|dim: u8, size: u16| dim == 1 || dim == 3 implies (
                #[trigger] CubeView::zeroed(dim, size)).wf() by {
                    law_fresh_is_well_formed(dim, size);
                }
                if triple(head, tail, number) is Some {
                    let rgb = triple(head, tail, number)->0;
                    if state.shaper is Some {
                        law_whole_rows(state.shaper->0.dim, state.shaper->0.size);
                        lemma_collect_keeps_well_formed(
                            State { shaper: None, ..state },
                            CollectorView::with_cube(state.shaper->0),
                            rgb,
                        );
                    } else if state.cube is Some {
                        law_whole_rows(state.cube->0.dim, state.cube->0.size);
                        lemma_collect_keeps_well_formed(
                            State { cube: None, ..state },
                            CollectorView::with_cube(state.cube->0),
                            rgb,
                        );
                    }
                }
            },
        }
    }
}

/// A row into a well-formed collector keeps the state well-formed.
proof fn lemma_collect_keeps_well_formed(state: State, collector: CollectorView, rgb: [u32; 3])
    requires
        state.cube matches Some(cube) ==> cube.wf(),
        state.shaper matches Some(shaper) ==> shaper.wf(),
        collector.wf(),
    ensures
        match state.collect(collector, rgb) {
            Progress::More(next) => next.wf(),
            Progress::Done(lut) => lut.wf(),
            Progress::Failed(_) => true,
        },
{
    law_push_keeps_well_formed(collector, rgb);
    if state.cube is Some {
        law_whole_rows(state.cube->0.dim, state.cube->0.size);
    }
}

/// A run from a well-formed state gives a well-formed table set.
pub proof fn law_run_gives_well_formed(
    state: State,
    lines: Seq<Seq<char>>,
    number: spec_fn(Seq<char>) -> Option<u32>,
)
    requires
        state.wf(),
    ensures
        state.run(lines, number) matches Ok(lut) ==> lut.wf(),
    decreases lines.len(),
{
    if lines.len() > 0 {
        law_feed_keeps_well_formed(state, lines[0], number);
        if let Progress::More(next) = state.feed(lines[0], number) {
            law_run_gives_well_formed(next, lines.drop_first(), number);
        }
    }
}

/// A comment line is joined to the comments and changes nothing else,
/// whatever the state: it is never read as a directive or as a row.
pub proof fn law_comment_line(
    state: State,
    line: Seq<char>,
    number: spec_fn(Seq<char>) -> Option<u32>,
)
    requires
        is_comment(line),
    ensures
        state.feed(line, number) == Progress::More(
            State { comments: join_comment(state.comments, trim(line)), ..state },
        ),
{
}

/// A line that is neither empty nor a comment and holds no delimiter is a
/// bare word. Before the first row a bare flag directive sets its flag and
/// any other bare word changes nothing; once a collector is open a bare word
/// is no row, and the run fails with `InvalidRgb`, holding the line.
pub proof fn law_line_without_delimiter(
    state: State,
    line: Seq<char>,
    number: spec_fn(Seq<char>) -> Option<u32>,
)
    requires
        trim(line).len() > 0,
        !is_comment(line),
        split_once(trim(line)) is None,
    ensures
        state.collector is None ==> state.feed(line, number) == Progress::More(
            if trim(line) == "LUT_IN_VIDEO_RANGE"@ {
                State { in_video_range: true, ..state }
            } else if trim(line) == "LUT_OUT_VIDEO_RANGE"@ {
                State { out_video_range: true, ..state }
            } else {
                state
            },
        ),
        state.collector is Some ==> state.feed(line, number) == Progress::Failed(
            ErrorView::InvalidRgb(line),
        ),
{
}

/// Before the first row, a line that is nothing but the name of a flag
/// directive sets that flag and changes nothing else.
pub proof fn law_bare_flag(
    state: State,
    line: Seq<char>,
    number: spec_fn(Seq<char>) -> Option<u32>,
)
    requires
        state.collector is None,
        trim(line) == "LUT_IN_VIDEO_RANGE"@ || trim(line) == "LUT_OUT_VIDEO_RANGE"@,
    ensures
        trim(line) == "LUT_IN_VIDEO_RANGE"@ ==> state.feed(line, number) == Progress::More(
            State { in_video_range: true, ..state },
        ),
        trim(line) == "LUT_OUT_VIDEO_RANGE"@ ==> state.feed(line, number) == Progress::More(
            State { out_video_range: true, ..state },
        ),
{
    reveal_strlit("LUT_IN_VIDEO_RANGE");
    reveal_strlit("LUT_OUT_VIDEO_RANGE");
    let s = trim(line);
    assert(s.len() == 18 || s.len() == 19);
    assert(s[0] == 'L');
    assert forall|i: int| 0 <= i < s.len() implies !is_delimiter(#[trigger] s[i]) by {
        lemma_flag_name_has_no_delimiter(i);
    }
    lemma_no_delimiter(s, 0);
    assert(s.skip(0) == s);
    assert(split_once(s) is None);
}

/// The names of the flag directives hold no delimiter.
proof fn lemma_flag_name_has_no_delimiter(i: int)
    ensures
        0 <= i < "LUT_IN_VIDEO_RANGE"@.len() ==> !is_delimiter("LUT_IN_VIDEO_RANGE"@[i]),
        0 <= i < "LUT_OUT_VIDEO_RANGE"@.len() ==> !is_delimiter("LUT_OUT_VIDEO_RANGE"@[i]),
{
    reveal_strlit("LUT_IN_VIDEO_RANGE");
    reveal_strlit("LUT_OUT_VIDEO_RANGE");
    if 0 <= i < 19 {
        assert(i == 0 || i == 1 || i == 2 || i == 3 || i == 4 || i == 5 || i == 6 || i == 7 || i
            == 8 || i == 9 || i == 10 || i == 11 || i == 12 || i == 13 || i == 14 || i == 15 || i
            == 16 || i == 17 || i == 18);
    }
}

/// A text whose characters from `from` on are no delimiters has none from
/// there on.
proof fn lemma_no_delimiter(s: Seq<char>, from: int)
    requires
        0 <= from <= s.len(),
        forall|i: int| from <= i < s.len() ==> !is_delimiter(#[trigger] s[i]),
    ensures
        head_len(s.skip(from)) == s.len() - from,
    decreases s.len() - from,
{
    let rest = s.skip(from);
    if from < s.len() {
        assert(rest[0] == s[from]);
        assert(rest.drop_first() == s.skip(from + 1));
        lemma_no_delimiter(s, from + 1);
    }
}

/// A blank line changes nothing, whatever the state.
pub proof fn law_blank_line(
    state: State,
    line: Seq<char>,
    number: spec_fn(Seq<char>) -> Option<u32>,
)
    requires
        trim(line).len() == 0,
    ensures
        state.feed(line, number) == Progress::More(state),
{
}

/// A line that is no comment leaves the comments as they are.
pub proof fn law_other_lines_keep_comments(
    state: State,
    line: Seq<char>,
    number: spec_fn(Seq<char>) -> Option<u32>,
)
    requires
        !is_comment(line),
    ensures
        match state.feed(line, number) {
            Progress::More(next) => next.comments == state.comments,
            Progress::Done(lut) => lut.comments == state.comments,
            Progress::Failed(_) => true,
        },
{
}

/// The comments of a table set are the comments of the lines that were read,
/// joined by single newlines in the order of the file.
pub proof fn law_comments_in_file_order(
    state: State,
    lines: Seq<Seq<char>>,
    number: spec_fn(Seq<char>) -> Option<u32>,
)
    ensures
        state.run(lines, number) matches Ok(lut) ==> lut.comments == gather(
            state.comments,
            lines.take(consumed(state, lines, number) as int),
        ),
    decreases lines.len(),
{
    if lines.len() > 0 {
        let rest = lines.drop_first();
        let read = lines.take(consumed(state, lines, number) as int);
        if is_comment(lines[0]) {
            law_comment_line(state, lines[0], number);
        } else {
            law_other_lines_keep_comments(state, lines[0], number);
        }
        match state.feed(lines[0], number) {
            Progress::More(next) => {
                law_comments_in_file_order(next, rest, number);
                lemma_consumed_in_range(next, rest, number);
                assert(read.len() > 0 && read[0] == lines[0]);
                assert(read.drop_first() == rest.take(consumed(next, rest, number) as int));
                assert(gather(state.comments, read) == gather(next.comments, read.drop_first()));
            },
            Progress::Done(lut) => {
                assert(read.len() == 1 && read[0] == lines[0]);
                assert(read.drop_first().len() == 0);
                assert(gather(state.comments, read) == gather(
                    state.comments,
                    read.drop_first(),
                ));
            },
            Progress::Failed(_) => {},
        }
    }
}

/// A run reads no more lines than there are.
proof fn lemma_consumed_in_range(
    state: State,
    lines: Seq<Seq<char>>,
    number: spec_fn(Seq<char>) -> Option<u32>,
)
    ensures
        consumed(state, lines, number) <= lines.len(),
    decreases lines.len(),
{
    if lines.len() > 0 {
        if let Progress::More(next) = state.feed(lines[0], number) {
            lemma_consumed_in_range(next, lines.drop_first(), number);
        }
    }
}

/// The name of the directive for a lower (`DOMAIN_MIN`) or upper
/// (`DOMAIN_MAX`) domain bound.
pub open spec fn domain_name(lower: bool) -> Seq<char> {
    if lower {
        "DOMAIN_MIN"@
    } else {
        "DOMAIN_MAX"@
    }
}

/// Before the first row, a domain directive with three numbers sets its
/// bound to them and changes nothing else, whatever tables are pending.
pub proof fn law_domain_bound(
    state: State,
    line: Seq<char>,
    number: spec_fn(Seq<char>) -> Option<u32>,
    lower: bool,
    rgb: [u32; 3],
)
    requires
        state.collector is None,
        split_once(trim(line)) matches Some((head, tail)) && head == domain_name(lower) && (
        split_once(tail) matches Some((first, rest)) && triple(first, rest, number) == Some(rgb)),
    ensures
        state.feed(line, number) == Progress::More(
            if lower {
                State { domain_min: Some(rgb), ..state }
            } else {
                State { domain_max: Some(rgb), ..state }
            },
        ),
{
    reveal_strlit("TITLE");
    reveal_strlit("LUT_IN_VIDEO_RANGE");
    reveal_strlit("LUT_OUT_VIDEO_RANGE");
    reveal_strlit("LUT_1D_SIZE");
    reveal_strlit("LUT_3D_SIZE");
    reveal_strlit("LUT_1D_INPUT_RANGE");
    reveal_strlit("LUT_3D_INPUT_RANGE");
    reveal_strlit("DOMAIN_MIN");
    reveal_strlit("DOMAIN_MAX");
    let s = trim(line);
    let (head, tail) = split_once(s)->0;
    assert(head.len() == 10);
    assert(s[0] == head[0]);
    assert("DOMAIN_MIN"@[8] == 'I');
    assert("DOMAIN_MAX"@[8] == 'A');
}

/// Once data has begun, lines that hold fewer entries than rows are still
/// missing never give a table set; where none of them fails, the run ends
/// with `Eof`.
pub proof fn law_truncated_data(
    state: State,
    lines: Seq<Seq<char>>,
    number: spec_fn(Seq<char>) -> Option<u32>,
)
    requires
        state.wf(),
        state.collector is Some,
        entries(lines) < missing(state),
    ensures
        state.run(lines, number) is Err,
        accepted(state, lines, number) ==> state.run(lines, number) == Err::<LutView, ErrorView>(
            ErrorView::Eof,
        ),
    decreases lines.len(),
{
    if lines.len() > 0 {
        let rest = lines.drop_first();
        let collector = state.collector->0;
        law_feed_keeps_well_formed(state, lines[0], number);
        if let Progress::More(next) = state.feed(lines[0], number) {
            if is_entry(lines[0]) {
                let (head, tail) = split_once(trim(lines[0]))->0;
                let rgb = triple(head, tail, number)->0;
                law_push_keeps_well_formed(collector, rgb);
                if state.cube is Some {
                    law_whole_rows(state.cube->0.dim, state.cube->0.size);
                }
                assert(missing(next) + 1 == missing(state));
            } else {
                assert(next.collector == state.collector && next.cube == state.cube);
            }
            law_truncated_data(next, rest, number);
        } else if let Progress::Done(lut) = state.feed(lines[0], number) {
            assert(is_entry(lines[0]));
            assert(missing(state) == 1);
        }
    }
}

/// How many rows the tables of `lut` hold.
pub open spec fn rows_of(lut: LutView) -> nat {
    lut.cube.rgbs.len() / 3 + match lut.shaper {
        Some(shaper) => shaper.rgbs.len() / 3,
        None => 0,
    }
}

/// What a run from `state` over `lines` owes to the table set `lut` that it
/// gives: before the first row, as many entries as `lut` has rows; after it,
/// the tables at hand are those of `lut`, and the entries make up for every
/// row that is still missing.
spec fn owed(state: State, lines: Seq<Seq<char>>, lut: LutView) -> bool {
    match state.collector {
        None => entries(lines) >= rows_of(lut),
        Some(collector) => match state.cube {
            Some(waiting) => {
                &&& lut.cube.rgbs.len() == waiting.rgbs.len()
                &&& lut.shaper matches Some(shaper) && shaper.rgbs.len() == collector.capacity
                &&& entries(lines) >= missing(state)
            },
            None => {
                &&& lut.cube.rgbs.len() == collector.capacity
                &&& lut.shaper == state.shaper
                &&& entries(lines) >= missing(state)
            },
        },
    }
}

/// A run that gives a table set has paid what its first state owed.
proof fn lemma_run_pays_what_is_owed(
    state: State,
    lines: Seq<Seq<char>>,
    number: spec_fn(Seq<char>) -> Option<u32>,
)
    requires
        state.wf(),
    ensures
        state.run(lines, number) matches Ok(lut) ==> owed(state, lines, lut),
    decreases lines.len(),
{
    if lines.len() > 0 {
        let rest = lines.drop_first();
        let line = lines[0];
        law_feed_keeps_well_formed(state, line, number);
        match state.feed(line, number) {
            Progress::More(next) => {
                lemma_run_pays_what_is_owed(next, rest, number);
                if let Ok(lut) = next.run(rest, number) {
                    if is_entry(line) {
                        let (head, tail) = split_once(trim(line))->0;
                        match state.collector {
                            Some(collector) => {
                                let rgb = triple(head, tail, number)->0;
                                lemma_collect_pays(state, collector, rgb, rest, lut);
                            },
                            None => {
                                if next.collector is Some {
                                    let rgb = triple(head, tail, number)->0;
                                    if state.shaper is Some {
                                        let shaper = state.shaper->0;
                                        law_whole_rows(shaper.dim, shaper.size);
                                        lemma_collect_pays(
                                            State { shaper: None, ..state },
                                            CollectorView::with_cube(shaper),
                                            rgb,
                                            rest,
                                            lut,
                                        );
                                    } else {
                                        let cube = state.cube->0;
                                        law_whole_rows(cube.dim, cube.size);
                                        lemma_collect_pays(
                                            State { cube: None, ..state },
                                            CollectorView::with_cube(cube),
                                            rgb,
                                            rest,
                                            lut,
                                        );
                                    }
                                }
                            },
                        }
                    } else {
                        assert(next.collector == state.collector && next.cube == state.cube
                            && next.shaper == state.shaper);
                    }
                }
            },
            Progress::Done(lut) => {
                assert(is_entry(line));
                let (head, tail) = split_once(trim(line))->0;
                let rgb = triple(head, tail, number)->0;
                match state.collector {
                    Some(collector) => {
                        law_push_keeps_well_formed(collector, rgb);
                    },
                    None => {
                        let target = if state.shaper is Some {
                            state.shaper->0
                        } else {
                            state.cube->0
                        };
                        law_whole_rows(target.dim, target.size);
                        law_push_keeps_well_formed(CollectorView::with_cube(target), rgb);
                    },
                }
            },
            Progress::Failed(_) => {},
        }
    }
}

/// Where a row into `collector` takes the run on to a state that is owed
/// `lut` over `rest`, the state before the row is owed `lut` over one entry
/// more.
proof fn lemma_collect_pays(
    state: State,
    collector: CollectorView,
    rgb: [u32; 3],
    rest: Seq<Seq<char>>,
    lut: LutView,
)
    requires
        state.cube matches Some(cube) ==> cube.wf(),
        state.shaper matches Some(shaper) ==> shaper.wf(),
        collector.wf(),
        collector.cube is Some,
        state.collect(collector, rgb) matches Progress::More(next) && owed(next, rest, lut),
    ensures
        ({
            let before = State { collector: Some(collector), ..state };
            &&& state.cube matches Some(waiting) ==> {
                &&& lut.cube.rgbs.len() == waiting.rgbs.len()
                &&& lut.shaper matches Some(shaper) && shaper.rgbs.len() == collector.capacity
            }
            &&& state.cube is None ==> {
                &&& lut.cube.rgbs.len() == collector.capacity
                &&& lut.shaper == state.shaper
            }
            &&& 1 + entries(rest) >= missing(before)
        }),
{
    law_push_keeps_well_formed(collector, rgb);
    if state.cube is Some {
        law_whole_rows(state.cube->0.dim, state.cube->0.size);
    }
}

/// A table set comes only of lines that hold at least as many entries as
/// its tables hold rows: no table of it is filled in part.
pub proof fn law_table_set_has_all_its_rows(
    state: State,
    lines: Seq<Seq<char>>,
    number: spec_fn(Seq<char>) -> Option<u32>,
)
    requires
        state.wf(),
        state.collector is None,
    ensures
        state.run(lines, number) matches Ok(lut) ==> entries(lines) >= rows_of(lut),
{
    lemma_run_pays_what_is_owed(state, lines, number);
}

/// Whether `line` reads as the row `rgb`: it is an entry, and the text before
/// its first delimiter and the two texts after it are the numbers of `rgb`.
pub open spec fn reads_as(
    line: Seq<char>,
    rgb: [u32; 3],
    number: spec_fn(Seq<char>) -> Option<u32>,
) -> bool {
    &&& is_entry(line)
    &&& {
        let parts = split_once(trim(line))->0;
        triple(parts.0, parts.1, number) == Some(rgb)
    }
}

/// The text before the first delimiter of `line`, once it is trimmed.
pub open spec fn head_of(line: Seq<char>) -> Seq<char> {
    let parts = split_once(trim(line))->0;
    parts.0
}

/// Whether `lines` read as `rows`, line by line.
pub open spec fn read_as(
    lines: Seq<Seq<char>>,
    rows: Seq<[u32; 3]>,
    number: spec_fn(Seq<char>) -> Option<u32>,
) -> bool {
    &&& lines.len() == rows.len()
    &&& forall|i: int| 0 <= i < lines.len() ==> reads_as(#[trigger] lines[i], rows[i], number)
}

/// Whether `head` is the name of a directive.
pub open spec fn is_directive(head: Seq<char>) -> bool {
    ||| head == "TITLE"@
    ||| head == "LUT_IN_VIDEO_RANGE"@
    ||| head == "LUT_OUT_VIDEO_RANGE"@
    ||| head == "LUT_1D_SIZE"@
    ||| head == "LUT_3D_SIZE"@
    ||| head == "LUT_1D_INPUT_RANGE"@
    ||| head == "LUT_3D_INPUT_RANGE"@
    ||| head == "DOMAIN_MIN"@
    ||| head == "DOMAIN_MAX"@
}

/// The table set that `rows` make of a state with an open collector: they go
/// into the table being filled, from the cursor on, until it is full, and
/// then into the table that waits, if there is one. With a table waiting the
/// first is the shaper and the second the primary table.
pub open spec fn filled(state: State, rows: Seq<[u32; 3]>) -> LutView
    recommends
        state.collector is Some,
        state.collector->0.cube is Some,
{
    let collector = state.collector->0;
    let table = collector.cube->0;
    let room = (collector.capacity - collector.len) / 3;
    let first = CubeView {
        rgbs: table.rgbs.take(collector.len as int) + samples(rows.take(room)),
        ..table
    };
    match state.cube {
        Some(waiting) => (State { shaper: Some(first), ..state }).finish(
            CubeView { rgbs: samples(rows.skip(room)), ..waiting },
        ),
        None => state.finish(first),
    }
}

/// The samples of some rows are the first row, then those of the others.
proof fn lemma_samples_front(rows: Seq<[u32; 3]>)
    requires
        rows.len() > 0,
    ensures
        samples(rows) =~= seq![rows[0][0], rows[0][1], rows[0][2]] + samples(rows.drop_first()),
{
    let rest = rows.drop_first();
    assert forall|i: int| 0 <= i < 3 * rows.len() implies samples(rows)[i] == (seq![
        rows[0][0],
        rows[0][1],
        rows[0][2],
    ] + samples(rest))[i] by {
        if i >= 3 {
            assert((i - 3) / 3 == i / 3 - 1);
            assert((i - 3) % 3 == i % 3);
            assert(rest[(i - 3) / 3] == rows[i / 3]);
        }
    }
}

/// Once data has begun, lines that read as exactly the rows still missing
/// give the table set that holds these rows in order: first in the table
/// being filled, then in the table that waits.
pub proof fn law_rows_fill_the_tables(
    state: State,
    lines: Seq<Seq<char>>,
    rows: Seq<[u32; 3]>,
    number: spec_fn(Seq<char>) -> Option<u32>,
)
    requires
        state.wf(),
        state.collector matches Some(collector) && collector.capacity > 0,
        state.cube matches Some(waiting) ==> waiting.rgbs.len() > 0,
        read_as(lines, rows, number),
        rows.len() == missing(state),
    ensures
        state.run(lines, number) == Ok::<LutView, ErrorView>(filled(state, rows)),
    decreases rows.len(),
{
    let collector = state.collector->0;
    let table = collector.cube->0;
    let at = collector.len as int;
    let room = (collector.capacity - collector.len) / 3;
    law_whole_rows(table.dim, table.size);
    if state.cube is Some {
        law_whole_rows(state.cube->0.dim, state.cube->0.size);
    }
    assert(room >= 1);
    assert(reads_as(lines[0], rows[0], number));
    let rgb = rows[0];
    let rest_lines = lines.drop_first();
    let rest = rows.drop_first();
    assert(read_as(rest_lines, rest, number)) by {
        assert forall|i: int| 0 <= i < rest_lines.len() implies reads_as(
            #[trigger] rest_lines[i],
            rest[i],
            number,
        ) by {
            assert(reads_as(lines[i + 1], rows[i + 1], number));
        }
    }
    assert(state.feed(lines[0], number) == state.collect(collector, rgb));
    assert(collector.has_room());
    let written = table.write(at, rgb);
    law_write_keeps_shape(table, at, rgb);
    law_feed_keeps_well_formed(state, lines[0], number);
    assert(written.rgbs.take(at + 3) =~= table.rgbs.take(at) + seq![rgb[0], rgb[1], rgb[2]]);
    lemma_samples_front(rows.take(room));
    assert(rows.take(room).drop_first() =~= rest.take(room - 1));
    assert(rows.skip(room) =~= rest.skip(room - 1));
    if at + 3 < collector.capacity {
        let next = State {
            collector: Some(CollectorView { cube: Some(written), len: (at + 3) as nat, ..collector }),
            ..state
        };
        assert(state.feed(lines[0], number) == Progress::More(next));
        law_rows_fill_the_tables(next, rest_lines, rest, number);
        assert(written.rgbs.take(at + 3) + samples(rest.take(room - 1)) =~= table.rgbs.take(at)
            + samples(rows.take(room)));
        assert(filled(next, rest) == filled(state, rows));
    } else {
        assert(room == 1);
        assert(written.rgbs =~= table.rgbs.take(at) + samples(rows.take(room))) by {
            assert(written.rgbs.take(at + 3) =~= written.rgbs);
            assert(samples(rest.take(0)) =~= Seq::<u32>::empty());
        }
        match state.cube {
            Some(waiting) => {
                let next = State {
                    shaper: Some(written),
                    cube: None,
                    collector: Some(CollectorView::with_cube(waiting)),
                    ..state
                };
                assert(state.feed(lines[0], number) == Progress::More(next));
                law_rows_fill_the_tables(next, rest_lines, rest, number);
                assert(rest.take(rest.len() as int) =~= rest);
                assert(waiting.rgbs.take(0) + samples(rest) =~= samples(rest));
                assert(filled(next, rest) == filled(state, rows));
            },
            None => {
                assert(state.feed(lines[0], number) == Progress::Done(state.finish(written)));
            },
        }
    }
}

/// A state before the first row with its collector opened: over the shaper
/// where two tables are pending, else over the pending table.
pub open spec fn opened(state: State) -> State
    recommends
        state.cube is Some,
{
    match state.shaper {
        Some(shaper) => State {
            shaper: None,
            collector: Some(CollectorView::with_cube(shaper)),
            ..state
        },
        None => State {
            cube: None,
            collector: Some(CollectorView::with_cube(state.cube->0)),
            ..state
        },
    }
}

/// With tables declared and no row read yet, lines that read as exactly the
/// rows of the pending tables give the table set that holds these rows in
/// order. Where two tables are pending, the one declared first is filled
/// first and is the shaper; the one declared last is the primary table.
pub proof fn law_rows_after_header_fill_the_tables(
    state: State,
    lines: Seq<Seq<char>>,
    rows: Seq<[u32; 3]>,
    number: spec_fn(Seq<char>) -> Option<u32>,
)
    requires
        state.wf(),
        state.collector is None,
        state.cube matches Some(cube) && cube.rgbs.len() > 0,
        state.shaper matches Some(shaper) ==> shaper.rgbs.len() > 0,
        read_as(lines, rows, number),
        rows.len() == missing(opened(state)),
        !is_directive(head_of(lines[0])),
    ensures
        state.run(lines, number) == Ok::<LutView, ErrorView>(filled(opened(state), rows)),
        state.shaper is None ==> filled(opened(state), rows) == state.finish(
            CubeView { rgbs: samples(rows), ..state.cube->0 },
        ),
        state.shaper matches Some(shaper) ==> filled(opened(state), rows) == (State {
            shaper: Some(
                CubeView { rgbs: samples(rows.take(shaper.rgbs.len() as int / 3)), ..shaper },
            ),
            ..state
        }).finish(
            CubeView {
                rgbs: samples(rows.skip(shaper.rgbs.len() as int / 3)),
                ..state.cube->0
            },
        ),
{
    let start = opened(state);
    let target = start.collector->0.cube->0;
    law_whole_rows(target.dim, target.size);
    law_whole_rows(state.cube->0.dim, state.cube->0.size);
    assert(rows.len() >= 1);
    assert(reads_as(lines[0], rows[0], number));
    assert(state.feed(lines[0], number) == start.feed(lines[0], number));
    assert(state.run(lines, number) == start.run(lines, number));
    law_rows_fill_the_tables(start, lines, rows, number);
    assert(target.rgbs.take(0) =~= Seq::<u32>::empty());
    let room = target.rgbs.len() as int / 3;
    assert(target.rgbs.take(0) + samples(rows.take(room)) =~= samples(rows.take(room)));
    if state.shaper is None {
        assert(rows.take(room) =~= rows);
    }
}

/// A run is a function of the texts of its lines and of the numbers that
/// the decoder gives for them: the same lines, read with decoders that agree
/// on every text, give the same table set or the same failure.
pub proof fn law_same_lines_same_result(
    state: State,
    lines: Seq<Seq<char>>,
    first: spec_fn(Seq<char>) -> Option<u32>,
    second: spec_fn(Seq<char>) -> Option<u32>,
)
    requires
        forall|text: Seq<char>| #[trigger] first(text) == second(text),
    ensures
        state.run(lines, first) == state.run(lines, second),
{
    assert(first =~= second);
}

} // verus!
