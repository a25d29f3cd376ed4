//! G-code output: the text of each command line, the block emitted for one
//! path, and the complete program with its header and end command.
//!
//! Coordinates and feedrates arrive as already rendered decimal text, so every
//! line here is plain text built by concatenation.
use vstd::prelude::*;

verus! {

/// The contents of a list of lines, each line taken as its characters.
pub open spec fn lines_view(lines: Seq<String>) -> Seq<Seq<char>> {
    lines.map_values(|l: String| l@)
}

/// The point list of one path, as a sequence of (x, y) texts.
pub open spec fn path_view(points: Seq<(String, String)>) -> Seq<(Seq<char>, Seq<char>)> {
    points.map_values(|p: (String, String)| (p.0@, p.1@))
}

/// Every path of a program, each as its sequence of (x, y) texts.
pub open spec fn paths_view(paths: Seq<Vec<(String, String)>>) -> Seq<Seq<(Seq<char>, Seq<char>)>> {
    paths.map_values(|p: Vec<(String, String)>| path_view(p@))
}

pub open spec fn path_start_line() -> Seq<char> {
    "; --- path start ---"@
}

pub open spec fn path_end_line() -> Seq<char> {
    "; --- path end ---"@
}

/// `G0 X<x> Y<y>`: rapid move to the first point of a path.
pub open spec fn rapid_move_line(x: Seq<char>, y: Seq<char>) -> Seq<char> {
    "G0 X"@ + x + " Y"@ + y
}

/// `G1 X<x> Y<y> F<feed>`: drawing move to a following point.
pub open spec fn draw_move_line(x: Seq<char>, y: Seq<char>, feed: Seq<char>) -> Seq<char> {
    "G1 X"@ + x + " Y"@ + y + " F"@ + feed
}

pub open spec fn pen_up_line(pen_up: Seq<char>) -> Seq<char> {
    pen_up + " ; pen up"@
}

pub open spec fn pen_down_line(pen_down: Seq<char>) -> Seq<char> {
    pen_down + " ; pen down"@
}

/// The drawing moves to every point after the first one.
pub open spec fn draw_moves(
    points: Seq<(Seq<char>, Seq<char>)>,
    feed: Seq<char>,
) -> Seq<Seq<char>> {
    Seq::new(
        (points.len() - 1) as nat,
        |i: int| draw_move_line(points[i + 1].0, points[i + 1].1, feed),
    )
}

/// The lines emitted for one path: nothing for a path without points;
/// otherwise a start comment, a rapid move to the first point, pen up,
/// pen down, one drawing move per further point, pen up and an end comment.
pub open spec fn path_block(
    points: Seq<(Seq<char>, Seq<char>)>,
    feed: Seq<char>,
    pen_down: Seq<char>,
    pen_up: Seq<char>,
) -> Seq<Seq<char>> {
    if points.len() == 0 {
        Seq::empty()
    } else {
        seq![
            path_start_line(),
            rapid_move_line(points[0].0, points[0].1),
            pen_up_line(pen_up),
            pen_down_line(pen_down),
        ] + draw_moves(points, feed) + seq![pen_up_line(pen_up), path_end_line()]
    }
}

/// The blocks of all paths, one after the other, in the order of the paths.
pub open spec fn path_blocks(
    paths: Seq<Seq<(Seq<char>, Seq<char>)>>,
    feed: Seq<char>,
    pen_down: Seq<char>,
    pen_up: Seq<char>,
) -> Seq<Seq<char>>
    decreases paths.len(),
{
    if paths.len() == 0 {
        Seq::empty()
    } else {
        path_blocks(paths.drop_last(), feed, pen_down, pen_up) + path_block(
            paths.last(),
            feed,
            pen_down,
            pen_up,
        )
    }
}

pub open spec fn header_lines(feed_summary: Seq<char>) -> Seq<Seq<char>> {
    seq![
        "G21 ; units = mm"@,
        "G90 ; absolute positioning"@,
        "; feedrate default: "@ + feed_summary,
    ]
}

pub open spec fn end_program_line() -> Seq<char> {
    "M2 ; end"@
}

/// All lines of a program: header, the blocks of the paths, end command.
pub open spec fn program_lines(
    paths: Seq<Seq<(Seq<char>, Seq<char>)>>,
    feed_summary: Seq<char>,
    feed: Seq<char>,
    pen_down: Seq<char>,
    pen_up: Seq<char>,
) -> Seq<Seq<char>> {
    header_lines(feed_summary) + path_blocks(paths, feed, pen_down, pen_up) + seq![
        end_program_line(),
    ]
}

/// Lines joined with a newline between each two of them.
pub open spec fn join_lines(lines: Seq<Seq<char>>) -> Seq<char>
    decreases lines.len(),
{
    if lines.len() == 0 {
        Seq::empty()
    } else if lines.len() == 1 {
        lines[0]
    } else {
        join_lines(lines.drop_last()) + "\n"@ + lines.last()
    }
}

fn rapid_move_text(x: &str, y: &str) -> (line: String)
    ensures
        line@ == rapid_move_line(x@, y@),
{
    let mut line = String::from_str("G0 X");
    line.append(x);
    line.append(" Y");
    line.append(y);
    line
}

fn draw_move_text(x: &str, y: &str, feed: &str) -> (line: String)
    ensures
        line@ == draw_move_line(x@, y@, feed@),
{
    let mut line = String::from_str("G1 X");
    line.append(x);
    line.append(" Y");
    line.append(y);
    line.append(" F");
    line.append(feed);
    line
}

fn pen_up_text(pen_up: &str) -> (line: String)
    ensures
        line@ == pen_up_line(pen_up@),
{
    let mut line = String::from_str(pen_up);
    line.append(" ; pen up");
    line
}

fn pen_down_text(pen_down: &str) -> (line: String)
    ensures
        line@ == pen_down_line(pen_down@),
{
    let mut line = String::from_str(pen_down);
    line.append(" ; pen down");
    line
}

/// The G-code lines for one path whose points are given as (x, y) texts.
/// A path without points gives no lines.
pub fn generate_gcode_for_path(
    points: &[(String, String)],
    feedrate: &str,
    pen_down: &str,
    pen_up: &str,
) -> (gcode: Vec<String>)
    ensures
        lines_view(gcode@) == path_block(path_view(points@), feedrate@, pen_down@, pen_up@),
{
    let ghost pts = path_view(points@);
    let mut gcode: Vec<String> = Vec::new();
    if points.len() == 0 {
        assert(lines_view(gcode@) =~= Seq::empty());
        return gcode;
    }
    gcode.push(String::from_str("; --- path start ---"));
    gcode.push(rapid_move_text(points[0].0.as_str(), points[0].1.as_str()));
    gcode.push(pen_up_text(pen_up));
    gcode.push(pen_down_text(pen_down));
    let ghost head = seq![
        path_start_line(),
        rapid_move_line(pts[0].0, pts[0].1),
        pen_up_line(pen_up@),
        pen_down_line(pen_down@),
    ];
    assert(lines_view(gcode@) =~= head);
    let mut i: usize = 1;
    while i < points.len()
        invariant
            1 <= i <= points.len(),
            pts == path_view(points@),
            head == seq![
                path_start_line(),
                rapid_move_line(pts[0].0, pts[0].1),
                pen_up_line(pen_up@),
                pen_down_line(pen_down@),
            ],
            lines_view(gcode@) == head + draw_moves(pts.take(i as int), feedrate@),
        decreases points.len() - i,
    {
        let line = draw_move_text(points[i].0.as_str(), points[i].1.as_str(), feedrate);
        let ghost before = lines_view(gcode@);
        gcode.push(line);
        assert(draw_moves(pts.take(i + 1), feedrate@) =~= draw_moves(pts.take(i as int), feedrate@).push(
            draw_move_line(pts[i as int].0, pts[i as int].1, feedrate@),
        ));
        assert(lines_view(gcode@) =~= before.push(line@));
        i = i + 1;
    }
    assert(pts.take(points.len() as int) =~= pts);
    gcode.push(pen_up_text(pen_up));
    gcode.push(String::from_str("; --- path end ---"));
    assert(lines_view(gcode@) =~= path_block(pts, feedrate@, pen_down@, pen_up@));
    gcode
}

/// Joins lines with a newline between each two of them.
pub fn join_gcode_lines(lines: &Vec<String>) -> (text: String)
    ensures
        text@ == join_lines(lines_view(lines@)),
{
    let ghost all = lines_view(lines@);
    let mut text = String::new();
    let mut i: usize = 0;
    while i < lines.len()
        invariant
            i <= lines.len(),
            all == lines_view(lines@),
            text@ == join_lines(all.take(i as int)),
        decreases lines.len() - i,
    {
        assert(all.take(i + 1).drop_last() =~= all.take(i as int));
        if i != 0 {
            text.append("\n");
        } else {
            assert(all.take(i as int) =~= Seq::<Seq<char>>::empty());
        }
        text.append(lines[i].as_str());
        i = i + 1;
    }
    assert(all.take(lines.len() as int) =~= all);
    text
}

/// The complete program for a list of paths whose points are given as
/// (x, y) texts: a header naming units, absolute positioning and the default
/// feedrate (`feedrate_summary`), the block of every path in order, and the
/// end command, joined by newlines. `feedrate` is the text used on each
/// drawing move.
pub fn generate_full_gcode(
    paths: &[Vec<(String, String)>],
    feedrate_summary: &str,
    feedrate: &str,
    pen_down: &str,
    pen_up: &str,
) -> (program: String)
    ensures
        program@ == join_lines(
            program_lines(paths_view(paths@), feedrate_summary@, feedrate@, pen_down@, pen_up@),
        ),
{
    let ghost all = paths_view(paths@);
    let mut gcode: Vec<String> = Vec::new();
    gcode.push(String::from_str("G21 ; units = mm"));
    gcode.push(String::from_str("G90 ; absolute positioning"));
    let mut summary = String::from_str("; feedrate default: ");
    summary.append(feedrate_summary);
    gcode.push(summary);
    assert(lines_view(gcode@) =~= header_lines(feedrate_summary@));
    let mut i: usize = 0;
    while i < paths.len()
        invariant
            i <= paths.len(),
            all == paths_view(paths@),
            lines_view(gcode@) == header_lines(feedrate_summary@) + path_blocks(
                all.take(i as int),
                feedrate@,
                pen_down@,
                pen_up@,
            ),
        decreases paths.len() - i,
    {
        let block = generate_gcode_for_path(paths[i].as_slice(), feedrate, pen_down, pen_up);
        let ghost before = lines_view(gcode@);
        let mut j: usize = 0;
        while j < block.len()
            invariant
                j <= block.len(),
                lines_view(gcode@) == before + lines_view(block@).take(j as int),
            decreases block.len() - j,
        {
            let ghost g0 = lines_view(gcode@);
            gcode.push(block[j].clone());
            assert(lines_view(gcode@) =~= g0.push(block@[j as int]@));
            assert(lines_view(block@).take(j + 1) =~= lines_view(block@).take(j as int).push(
                block@[j as int]@,
            ));
            assert(lines_view(gcode@) =~= before + lines_view(block@).take(j + 1));
            j = j + 1;
        }
        assert(lines_view(block@).take(block.len() as int) =~= lines_view(block@));
        assert(all.take(i + 1).drop_last() =~= all.take(i as int));
        assert(all[i as int] == path_view(paths@[i as int]@));
        i = i + 1;
    }
    assert(all.take(paths.len() as int) =~= all);
    let ghost before = lines_view(gcode@);
    gcode.push(String::from_str("M2 ; end"));
    assert(lines_view(gcode@) =~= before.push(end_program_line()));
    assert(lines_view(gcode@) =~= program_lines(
        all,
        feedrate_summary@,
        feedrate@,
        pen_down@,
        pen_up@,
    ));
    join_gcode_lines(&gcode)
}

/// Number of lines in the block of a path with `n` points.
pub open spec fn block_len(n: nat) -> nat {
    if n == 0 {
        0
    } else {
        n + 5
    }
}

/// Total number of block lines over a list of paths.
pub open spec fn blocks_len(paths: Seq<Seq<(Seq<char>, Seq<char>)>>) -> nat
    decreases paths.len(),
{
    if paths.len() == 0 {
        0
    } else {
        blocks_len(paths.drop_last()) + block_len(paths.last().len())
    }
}

/// A path with points gives `n + 5` lines: it opens with the start comment,
/// moves rapidly to its first point, raises and then lowers the pen, draws
/// to each further point in order with the given feedrate, and closes by
/// raising the pen and the end comment, so the pen is always left up.
pub proof fn lemma_path_block_shape(
    points: Seq<(Seq<char>, Seq<char>)>,
    feed: Seq<char>,
    pen_down: Seq<char>,
    pen_up: Seq<char>,
)
    requires
        points.len() > 0,
    ensures
        ({
            let block = path_block(points, feed, pen_down, pen_up);
            let n = points.len() as int;
            &&& block.len() == n + 5
            &&& block[0] == "; --- path start ---"@
            &&& block[1] == "G0 X"@ + points[0].0 + " Y"@ + points[0].1
            &&& block[2] == pen_up + " ; pen up"@
            &&& block[3] == pen_down + " ; pen down"@
            &&& forall|k: int|
                1 <= k < n ==> #[trigger] block[3 + k] == "G1 X"@ + points[k].0 + " Y"@
                    + points[k].1 + " F"@ + feed
            &&& block[n + 3] == pen_up + " ; pen up"@
            &&& block[n + 4] == "; --- path end ---"@
        }),
{
    let block = path_block(points, feed, pen_down, pen_up);
    let n = points.len() as int;
    assert forall|k: int| 1 <= k < n implies #[trigger] block[3 + k] == "G1 X"@ + points[k].0
        + " Y"@ + points[k].1 + " F"@ + feed by {
        assert(block[3 + k] == draw_moves(points, feed)[k - 1]);
    }
}

/// The block of a path without points is empty: such a path emits nothing.
pub proof fn lemma_empty_path_emits_nothing(
    feed: Seq<char>,
    pen_down: Seq<char>,
    pen_up: Seq<char>,
)
    ensures
        path_block(Seq::empty(), feed, pen_down, pen_up) == Seq::<Seq<char>>::empty(),
{
}

/// The blocks of two path lists, one after the other, are the blocks of the
/// two lists taken together.
pub proof fn lemma_path_blocks_concat(
    first: Seq<Seq<(Seq<char>, Seq<char>)>>,
    second: Seq<Seq<(Seq<char>, Seq<char>)>>,
    feed: Seq<char>,
    pen_down: Seq<char>,
    pen_up: Seq<char>,
)
    ensures
        path_blocks(first + second, feed, pen_down, pen_up) == path_blocks(
            first,
            feed,
            pen_down,
            pen_up,
        ) + path_blocks(second, feed, pen_down, pen_up),
    decreases second.len(),
{
    if second.len() == 0 {
        assert(first + second =~= first);
        assert(path_blocks(first, feed, pen_down, pen_up) + path_blocks(
            second,
            feed,
            pen_down,
            pen_up,
        ) =~= path_blocks(first, feed, pen_down, pen_up));
    } else {
        lemma_path_blocks_concat(first, second.drop_last(), feed, pen_down, pen_up);
        assert((first + second).drop_last() =~= first + second.drop_last());
        assert((first + second).last() == second.last());
        assert(path_blocks(first, feed, pen_down, pen_up) + path_blocks(
            second,
            feed,
            pen_down,
            pen_up,
        ) =~= path_blocks(first, feed, pen_down, pen_up) + path_blocks(
            second.drop_last(),
            feed,
            pen_down,
            pen_up,
        ) + path_block(second.last(), feed, pen_down, pen_up));
    }
}

/// Leaving out the paths without points does not change the program.
pub proof fn lemma_empty_paths_do_not_matter(
    paths: Seq<Seq<(Seq<char>, Seq<char>)>>,
    feed: Seq<char>,
    pen_down: Seq<char>,
    pen_up: Seq<char>,
)
    ensures
        path_blocks(paths.filter(|p: Seq<(Seq<char>, Seq<char>)>| p.len() > 0), feed, pen_down, pen_up)
            == path_blocks(paths, feed, pen_down, pen_up),
    decreases paths.len(),
{
    reveal_with_fuel(Seq::<_>::filter, 1);
    if paths.len() > 0 {
        let pred = |p: Seq<(Seq<char>, Seq<char>)>| p.len() > 0;
        lemma_empty_paths_do_not_matter(paths.drop_last(), feed, pen_down, pen_up);
        if paths.last().len() > 0 {
            assert(paths.filter(pred) == paths.drop_last().filter(pred).push(paths.last()));
            assert(paths.filter(pred).drop_last() =~= paths.drop_last().filter(pred));
        } else {
            assert(paths.filter(pred) == paths.drop_last().filter(pred));
            assert(path_blocks(paths, feed, pen_down, pen_up) =~= path_blocks(
                paths.drop_last(),
                feed,
                pen_down,
                pen_up,
            ));
        }
    }
}

/// A program has four lines besides the blocks of its paths, and the block
/// of a path with `n > 0` points has `n + 5` lines.
pub proof fn lemma_program_line_count(
    paths: Seq<Seq<(Seq<char>, Seq<char>)>>,
    feed_summary: Seq<char>,
    feed: Seq<char>,
    pen_down: Seq<char>,
    pen_up: Seq<char>,
)
    ensures
        program_lines(paths, feed_summary, feed, pen_down, pen_up).len() == 4 + blocks_len(paths),
{
    lemma_blocks_len(paths, feed, pen_down, pen_up);
}

proof fn lemma_blocks_len(
    paths: Seq<Seq<(Seq<char>, Seq<char>)>>,
    feed: Seq<char>,
    pen_down: Seq<char>,
    pen_up: Seq<char>,
)
    ensures
        path_blocks(paths, feed, pen_down, pen_up).len() == blocks_len(paths),
    decreases paths.len(),
{
    if paths.len() > 0 {
        lemma_blocks_len(paths.drop_last(), feed, pen_down, pen_up);
    }
}

proof fn lemma_join_prefix(lines: Seq<Seq<char>>)
    requires
        lines.len() >= 2,
    ensures
        join_lines(lines).len() >= lines[0].len() + 1,
        join_lines(lines).take((lines[0].len() + 1) as int) == lines[0] + "\n"@,
    decreases lines.len(),
{
    reveal_strlit("\n");
    let head = lines[0] + "\n"@;
    if lines.len() == 2 {
        assert(lines.drop_last() =~= seq![lines[0]]);
        assert(join_lines(lines.drop_last()) == lines[0]);
    } else {
        lemma_join_prefix(lines.drop_last());
        assert(lines.drop_last()[0] == lines[0]);
    }
    assert(join_lines(lines).take((lines[0].len() + 1) as int) =~= head);
}

/// Every program text opens with the units line and closes with the end
/// command, whatever the paths.
pub proof fn lemma_program_frame(
    paths: Seq<Seq<(Seq<char>, Seq<char>)>>,
    feed_summary: Seq<char>,
    feed: Seq<char>,
    pen_down: Seq<char>,
    pen_up: Seq<char>,
)
    ensures
        ({
            let text = join_lines(program_lines(paths, feed_summary, feed, pen_down, pen_up));
            let first = "G21 ; units = mm\n"@;
            let last = "\nM2 ; end"@;
            &&& text.len() >= first.len() + last.len()
            &&& text.take(first.len() as int) == first
            &&& text.skip(text.len() - last.len()) == last
        }),
{
    let lines = program_lines(paths, feed_summary, feed, pen_down, pen_up);
    let text = join_lines(lines);
    reveal_strlit("G21 ; units = mm\n");
    reveal_strlit("G21 ; units = mm");
    reveal_strlit("\nM2 ; end");
    reveal_strlit("M2 ; end");
    reveal_strlit("\n");
    assert(lines[0] == "G21 ; units = mm"@);
    lemma_join_prefix(lines);
    assert(lines[0] + "\n"@ =~= "G21 ; units = mm\n"@);
    assert(lines.last() == end_program_line());
    assert(text == join_lines(lines.drop_last()) + "\n"@ + end_program_line());
    assert(text.skip(text.len() - "\nM2 ; end"@.len()) =~= "\nM2 ; end"@);
    assert(lines.drop_last().len() >= 3);
    lemma_join_prefix(lines.drop_last());
}

/// What a program line does, with the texts it is made of.
pub enum LineRole {
    Header(Seq<char>),
    PathStart,
    Rapid(Seq<char>, Seq<char>),
    PenUp,
    PenDown,
    Draw(Seq<char>, Seq<char>),
    PathEnd,
    ProgramEnd,
}

/// The line a role stands for.
pub open spec fn role_line(
    role: LineRole,
    feed: Seq<char>,
    pen_down: Seq<char>,
    pen_up: Seq<char>,
) -> Seq<char> {
    match role {
        LineRole::Header(text) => text,
        LineRole::PathStart => path_start_line(),
        LineRole::Rapid(x, y) => rapid_move_line(x, y),
        LineRole::PenUp => pen_up_line(pen_up),
        LineRole::PenDown => pen_down_line(pen_down),
        LineRole::Draw(x, y) => draw_move_line(x, y, feed),
        LineRole::PathEnd => path_end_line(),
        LineRole::ProgramEnd => end_program_line(),
    }
}

pub open spec fn block_roles(points: Seq<(Seq<char>, Seq<char>)>) -> Seq<LineRole> {
    if points.len() == 0 {
        Seq::empty()
    } else {
        seq![
            LineRole::PathStart,
            LineRole::Rapid(points[0].0, points[0].1),
            LineRole::PenUp,
            LineRole::PenDown,
        ] + Seq::new(
            (points.len() - 1) as nat,
            |i: int| LineRole::Draw(points[i + 1].0, points[i + 1].1),
        ) + seq![LineRole::PenUp, LineRole::PathEnd]
    }
}

pub open spec fn blocks_roles(paths: Seq<Seq<(Seq<char>, Seq<char>)>>) -> Seq<LineRole>
    decreases paths.len(),
{
    if paths.len() == 0 {
        Seq::empty()
    } else {
        blocks_roles(paths.drop_last()) + block_roles(paths.last())
    }
}

pub open spec fn header_roles(feed_summary: Seq<char>) -> Seq<LineRole> {
    header_lines(feed_summary).map_values(|t: Seq<char>| LineRole::Header(t))
}

/// The role of every line of a program, in order.
pub open spec fn program_roles(
    paths: Seq<Seq<(Seq<char>, Seq<char>)>>,
    feed_summary: Seq<char>,
) -> Seq<LineRole> {
    header_roles(feed_summary) + blocks_roles(paths) + seq![LineRole::ProgramEnd]
}

/// Whether the pen is down after a line, given whether it was down before.
pub open spec fn pen_step(down: bool, role: LineRole) -> bool {
    match role {
        LineRole::PenDown => true,
        LineRole::PenUp => false,
        _ => down,
    }
}

/// Whether the pen is down after running `roles`, from the state `down`.
pub open spec fn pen_after(down: bool, roles: Seq<LineRole>) -> bool
    decreases roles.len(),
{
    if roles.len() == 0 {
        down
    } else {
        pen_step(pen_after(down, roles.drop_last()), roles.last())
    }
}

/// Starting with the pen up: every drawing move is made with the pen down,
/// every rapid move and the end command with the pen up, and the pen is up
/// after the last line.
pub open spec fn pen_order_ok(roles: Seq<LineRole>) -> bool {
    &&& forall|k: int|
        #![trigger roles[k]]
        0 <= k < roles.len() ==> {
            &&& roles[k] is Draw ==> pen_after(false, roles.take(k))
            &&& (roles[k] is Rapid || roles[k] is ProgramEnd) ==> !pen_after(false, roles.take(k))
        }
    &&& !pen_after(false, roles)
}

proof fn lemma_block_roles_lines(
    points: Seq<(Seq<char>, Seq<char>)>,
    feed: Seq<char>,
    pen_down: Seq<char>,
    pen_up: Seq<char>,
)
    ensures
        path_block(points, feed, pen_down, pen_up) == block_roles(points).map_values(
            |r: LineRole| role_line(r, feed, pen_down, pen_up),
        ),
{
    let lines = path_block(points, feed, pen_down, pen_up);
    let mapped = block_roles(points).map_values(|r: LineRole| role_line(r, feed, pen_down, pen_up));
    if points.len() > 0 {
        let n = points.len() as int;
        assert forall|k: int| 0 <= k < lines.len() implies lines[k] == mapped[k] by {
            if 4 <= k < n + 3 {
                assert(lines[k] == draw_moves(points, feed)[k - 4]);
            }
        }
    }
    assert(lines =~= mapped);
}

proof fn lemma_blocks_roles_lines(
    paths: Seq<Seq<(Seq<char>, Seq<char>)>>,
    feed: Seq<char>,
    pen_down: Seq<char>,
    pen_up: Seq<char>,
)
    ensures
        path_blocks(paths, feed, pen_down, pen_up) == blocks_roles(paths).map_values(
            |r: LineRole| role_line(r, feed, pen_down, pen_up),
        ),
    decreases paths.len(),
{
    if paths.len() == 0 {
        assert(blocks_roles(paths).map_values(|r: LineRole| role_line(r, feed, pen_down, pen_up))
            =~= Seq::empty());
    } else {
        lemma_blocks_roles_lines(paths.drop_last(), feed, pen_down, pen_up);
        lemma_block_roles_lines(paths.last(), feed, pen_down, pen_up);
        let f = |r: LineRole| role_line(r, feed, pen_down, pen_up);
        assert((blocks_roles(paths.drop_last()) + block_roles(paths.last())).map_values(f)
            =~= blocks_roles(paths.drop_last()).map_values(f) + block_roles(paths.last()).map_values(f));
    }
}

proof fn lemma_pen_after_concat(down: bool, first: Seq<LineRole>, second: Seq<LineRole>)
    ensures
        pen_after(down, first + second) == pen_after(pen_after(down, first), second),
    decreases second.len(),
{
    if second.len() == 0 {
        assert(first + second =~= first);
    } else {
        lemma_pen_after_concat(down, first, second.drop_last());
        assert((first + second).drop_last() =~= first + second.drop_last());
    }
}

proof fn lemma_headers_keep_pen(down: bool, roles: Seq<LineRole>)
    requires
        forall|k: int| 0 <= k < roles.len() ==> #[trigger] roles[k] is Header,
    ensures
        pen_after(down, roles) == down,
    decreases roles.len(),
{
    if roles.len() > 0 {
        lemma_headers_keep_pen(down, roles.drop_last());
        assert(roles[roles.len() - 1] is Header);
    }
}

proof fn lemma_block_pen(points: Seq<(Seq<char>, Seq<char>)>, k: int)
    requires
        points.len() > 0,
        0 <= k <= points.len() + 5,
    ensures
        pen_after(false, block_roles(points).take(k)) == (4 <= k <= points.len() + 3),
    decreases k,
{
    let b = block_roles(points);
    let n = points.len() as int;
    if k > 0 {
        lemma_block_pen(points, k - 1);
        assert(b.take(k).drop_last() =~= b.take(k - 1));
        assert(b.take(k).last() == b[k - 1]);
        if 4 <= k - 1 < n + 3 {
            assert(b[k - 1] is Draw);
        }
    } else {
        assert(b.take(0) =~= Seq::<LineRole>::empty());
    }
}

proof fn lemma_pen_order_append_block(roles: Seq<LineRole>, points: Seq<(Seq<char>, Seq<char>)>)
    requires
        pen_order_ok(roles),
    ensures
        pen_order_ok(roles + block_roles(points)),
{
    let b = block_roles(points);
    let all = roles + b;
    let n = points.len() as int;
    if points.len() == 0 {
        assert(all =~= roles);
    } else {
        assert forall|k: int| 0 <= k < all.len() implies {
            &&& all[k] is Draw ==> pen_after(false, all.take(k))
            &&& (all[k] is Rapid || all[k] is ProgramEnd) ==> !pen_after(false, all.take(k))
        } by {
            if k < roles.len() {
                assert(all.take(k) =~= roles.take(k));
                assert(all[k] == roles[k]);
            } else {
                let j = k - roles.len();
                assert(all.take(k) =~= roles + b.take(j));
                lemma_pen_after_concat(false, roles, b.take(j));
                lemma_block_pen(points, j);
                assert(all[k] == b[j]);
            }
        }
        lemma_pen_after_concat(false, roles, b);
        lemma_block_pen(points, n + 5);
        assert(b.take(n + 5) =~= b);
    }
}

proof fn lemma_pen_order_blocks(
    paths: Seq<Seq<(Seq<char>, Seq<char>)>>,
    feed_summary: Seq<char>,
)
    ensures
        pen_order_ok(header_roles(feed_summary) + blocks_roles(paths)),
    decreases paths.len(),
{
    let h = header_roles(feed_summary);
    if paths.len() == 0 {
        assert(h + blocks_roles(paths) =~= h);
        assert forall|k: int| 0 <= k <= h.len() implies !pen_after(false, #[trigger] h.take(k)) by {
            lemma_headers_keep_pen(false, h.take(k));
        }
        lemma_headers_keep_pen(false, h);
    } else {
        lemma_pen_order_blocks(paths.drop_last(), feed_summary);
        lemma_pen_order_append_block(h + blocks_roles(paths.drop_last()), paths.last());
        assert(h + blocks_roles(paths) =~= (h + blocks_roles(paths.drop_last())) + block_roles(
            paths.last(),
        ));
    }
}

/// The lines of every program are those of its roles, and the pen order is
/// kept: each drawing move is made with the pen down, each rapid move and the
/// end command with the pen up, and the pen is left up at the end.
pub proof fn lemma_program_pen_order(
    paths: Seq<Seq<(Seq<char>, Seq<char>)>>,
    feed_summary: Seq<char>,
    feed: Seq<char>,
    pen_down: Seq<char>,
    pen_up: Seq<char>,
)
    ensures
        program_lines(paths, feed_summary, feed, pen_down, pen_up) == program_roles(
            paths,
            feed_summary,
        ).map_values(|r: LineRole| role_line(r, feed, pen_down, pen_up)),
        pen_order_ok(program_roles(paths, feed_summary)),
{
    let f = |r: LineRole| role_line(r, feed, pen_down, pen_up);
    lemma_blocks_roles_lines(paths, feed, pen_down, pen_up);
    let h = header_roles(feed_summary);
    let body = h + blocks_roles(paths);
    assert(h.map_values(f) =~= header_lines(feed_summary));
    assert(program_roles(paths, feed_summary).map_values(f) =~= h.map_values(f) + blocks_roles(
        paths,
    ).map_values(f) + seq![end_program_line()]);
    lemma_pen_order_blocks(paths, feed_summary);
    let all = body.push(LineRole::ProgramEnd);
    assert(program_roles(paths, feed_summary) =~= all);
    assert forall|k: int| 0 <= k < all.len() implies {
        &&& all[k] is Draw ==> pen_after(false, all.take(k))
        &&& (all[k] is Rapid || all[k] is ProgramEnd) ==> !pen_after(false, all.take(k))
    } by {
        if k < body.len() {
            assert(all.take(k) =~= body.take(k));
            assert(all[k] == body[k]);
        } else {
            assert(all.take(k) =~= body);
        }
    }
    assert(all.drop_last() =~= body);
}

/// Every program is the three header lines (units, absolute positioning,
/// default feedrate), then the blocks of its paths in order, then the end
/// command.
pub proof fn lemma_program_layout(
    paths: Seq<Seq<(Seq<char>, Seq<char>)>>,
    feed_summary: Seq<char>,
    feed: Seq<char>,
    pen_down: Seq<char>,
    pen_up: Seq<char>,
)
    ensures
        ({
            let lines = program_lines(paths, feed_summary, feed, pen_down, pen_up);
            let blocks = path_blocks(paths, feed, pen_down, pen_up);
            &&& lines.len() == blocks.len() + 4
            &&& lines[0] == "G21 ; units = mm"@
            &&& lines[1] == "G90 ; absolute positioning"@
            &&& lines[2] == "; feedrate default: "@ + feed_summary
            &&& lines.subrange(3, lines.len() - 1) == blocks
            &&& lines[lines.len() - 1] == "M2 ; end"@
        }),
{
    let lines = program_lines(paths, feed_summary, feed, pen_down, pen_up);
    assert(lines.subrange(3, lines.len() - 1) =~= path_blocks(paths, feed, pen_down, pen_up));
}

/// Passes a list of G-code lines through unchanged.
pub fn optimize_gcode(gcode: Vec<String>) -> (optimized: Vec<String>)
    ensures
        optimized@ == gcode@,
{
    gcode
}

} // verus!
