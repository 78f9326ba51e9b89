//! The lines that show which output feeds which input.

use vstd::prelude::*;

use crate::node::fresh_node;
use crate::protocol::{fits, Coords};

verus! {

/// How far a line runs straight out of an output, and straight into an input.
pub const END_SEGMENT_LENGTH: i32 = 16;

/// The way from an output to where its line may first turn, and from where it may last turn to
/// its input.
pub open spec fn end_segment() -> Coords {
    Coords { x: END_SEGMENT_LENGTH, y: 0 }
}

/// Half of a number, rounded towards zero.
pub open spec fn half(n: int) -> int {
    if n >= 0 {
        n / 2
    } else {
        -(-n / 2)
    }
}

/// Whether every number that the line's course takes to work out is an `i32`.
pub open spec fn line_fits(start: Coords, end: Coords) -> bool {
    &&& start.sum_fits(end_segment())
    &&& end.difference_fits(end_segment())
    &&& {
        let first_turn = start.plus(end_segment());
        let last_turn = end.minus(end_segment());
        if first_turn.x <= last_turn.x {
            fits(first_turn.x + last_turn.x)
        } else {
            fits(first_turn.y + last_turn.y)
        }
    }
}

/// The course of the line from an output to an input: straight out of the one and straight into
/// the other, in between halfway across where there is room for it, else halfway down.
pub open spec fn line_points(start: Coords, end: Coords) -> Seq<Coords> {
    let first_turn = start.plus(end_segment());
    let last_turn = end.minus(end_segment());
    if first_turn.x <= last_turn.x {
        let x = half(first_turn.x + last_turn.x) as i32;
        seq![
            start,
            first_turn,
            Coords { x, y: first_turn.y },
            Coords { x, y: last_turn.y },
            last_turn,
            end,
        ]
    } else {
        let y = half(first_turn.y + last_turn.y) as i32;
        seq![
            start,
            first_turn,
            Coords { x: first_turn.x, y },
            Coords { x: last_turn.x, y },
            last_turn,
            end,
        ]
    }
}

/// The points that the line from an output to an input runs through.
pub fn plan_line_points(start: Coords, end: Coords) -> (points: Vec<Coords>)
    requires
        line_fits(start, end),
    ensures
        points@ == line_points(start, end),
{
    let mut segments: Vec<Coords> = Vec::new();

    let end_segment = Coords { x: END_SEGMENT_LENGTH, y: 0 };
    let effective_start = start.add(end_segment);
    let effective_end = end.sub(end_segment);

    segments.push(start);
    segments.push(effective_start);

    if effective_start.x <= effective_end.x {
        // the line is mostly horizontal
        let x_midpoint: i32 = (effective_start.x + effective_end.x) / 2;

        segments.push(Coords { x: x_midpoint, y: effective_start.y });
        segments.push(Coords { x: x_midpoint, y: effective_end.y });
    } else {
        // the line is mostly vertical
        let y_midpoint: i32 = (effective_start.y + effective_end.y) / 2;

        segments.push(Coords { x: effective_start.x, y: y_midpoint });
        segments.push(Coords { x: effective_end.x, y: y_midpoint });
    }

    segments.push(effective_end);
    segments.push(end);

    segments
}

/// Whether `plan_line_points` can work out the line.
pub fn can_plan_line(start: Coords, end: Coords) -> (can: bool)
    ensures
        can == line_fits(start, end),
{
    let end_segment = Coords { x: END_SEGMENT_LENGTH, y: 0 };
    match (start.checked_add(end_segment), end.checked_sub(end_segment)) {
        (Some(first_turn), Some(last_turn)) => if first_turn.x <= last_turn.x {
            first_turn.x.checked_add(last_turn.x).is_some()
        } else {
            first_turn.y.checked_add(last_turn.y).is_some()
        },
        _ => false,
    }
}

/// A step of drawing on the canvas.
#[derive(Debug, Clone, Copy, PartialEq, Eq, Structural)]
pub enum CanvasOp {
    /// Wipe the canvas from its corner to the given width and height.
    ClearRect(usize, usize),
    BeginPath,
    MoveTo(Coords),
    LineTo(Coords),
    Stroke,
}

/// The lines to draw, each from an output to an input, and the size of the canvas.
#[derive(Debug, PartialEq, Eq)]
pub struct ConnectionsProps {
    pub width: usize,
    pub height: usize,
    pub connections: Vec<(Coords, Coords)>,
}

/// What is to be drawn, and on how large a canvas.
#[verifier::ext_equal]
pub struct ConnectionsPropsView {
    pub width: usize,
    pub height: usize,
    pub connections: Seq<(Coords, Coords)>,
}

impl View for ConnectionsProps {
    type V = ConnectionsPropsView;

    open spec fn view(&self) -> ConnectionsPropsView {
        ConnectionsPropsView {
            width: self.width,
            height: self.height,
            connections: self.connections@,
        }
    }
}

/// The canvas that the lines are drawn on.
pub struct Connections {
    canvas: yew::NodeRef,
    ready: bool,
    props: ConnectionsProps,
}

/// What a `Connections` holds.
#[verifier::ext_equal]
pub struct ConnectionsView {
    pub canvas: yew::NodeRef,
    /// Whether there is something to draw on.
    pub ready: bool,
    pub props: ConnectionsPropsView,
}

impl View for Connections {
    type V = ConnectionsView;

    closed spec fn view(&self) -> ConnectionsView {
        ConnectionsView { canvas: self.canvas, ready: self.ready, props: self.props@ }
    }
}

/// How a line through the given points is drawn.
pub open spec fn path_ops(points: Seq<Coords>) -> Seq<CanvasOp> {
    seq![CanvasOp::BeginPath, CanvasOp::MoveTo(points[0])] + points.skip(1).map_values(
        |point: Coords| CanvasOp::LineTo(point),
    ) + seq![CanvasOp::Stroke]
}

/// How lines are drawn, one after the other.
pub open spec fn lines_ops(lines: Seq<(Coords, Coords)>) -> Seq<CanvasOp>
    decreases lines.len(),
{
    if lines.len() == 0 {
        seq![]
    } else {
        lines_ops(lines.drop_last()) + path_ops(line_points(lines.last().0, lines.last().1))
    }
}

impl ConnectionsView {
    /// Whether every line can be worked out.
    pub open spec fn drawable(self) -> bool {
        forall|i: int|
            0 <= i < self.props.connections.len() ==> line_fits(
                #[trigger] self.props.connections[i].0,
                self.props.connections[i].1,
            )
    }

    /// The steps of drawing the canvas.
    pub open spec fn drawing(self) -> Seq<CanvasOp> {
        if self.ready {
            seq![CanvasOp::ClearRect(self.props.width, self.props.height)] + lines_ops(
                self.props.connections,
            )
        } else {
            seq![]
        }
    }
}

/// Adds the steps of drawing a line.
fn push_path(ops: &mut Vec<CanvasOp>, points: &Vec<Coords>)
    requires
        points@.len() > 0,
    ensures
        final(ops)@ == old(ops)@ + path_ops(points@),
{
    let ghost before = ops@;
    ops.push(CanvasOp::BeginPath);
    ops.push(CanvasOp::MoveTo(points[0]));
    let ghost opening = seq![CanvasOp::BeginPath, CanvasOp::MoveTo(points@[0])];
    let mut i: usize = 1;
    while i < points.len()
        invariant
            1 <= i <= points@.len(),
            opening == seq![CanvasOp::BeginPath, CanvasOp::MoveTo(points@[0])],
            ops@ == before + opening + points@.subrange(1, i as int).map_values(
                |point: Coords| CanvasOp::LineTo(point),
            ),
        decreases points@.len() - i,
    {
        ops.push(CanvasOp::LineTo(points[i]));
        assert(points@.subrange(1, i + 1) =~= points@.subrange(1, i as int).push(points@[i as int]));
        i += 1;
    }
    assert(points@.subrange(1, points@.len() as int) =~= points@.skip(1));
    ops.push(CanvasOp::Stroke);
}

impl Connections {
    /// A canvas that is not on the page yet. Its reference is new; what other references there are
    /// is not known here, so nothing is said of how it compares with them.
    pub fn create(props: ConnectionsProps) -> (canvas: Connections)
        ensures
            canvas@.props == props@,
            !canvas@.ready,
    {
        Connections { canvas: fresh_node(&Vec::new()), ready: false, props }
    }

    /// The reference to the canvas element.
    pub fn canvas(&self) -> (node: &yew::NodeRef)
        ensures
            *node == self@.canvas,
    {
        &self.canvas
    }

    pub fn props(&self) -> (props: &ConnectionsProps)
        ensures
            props@ == self@.props,
    {
        &self.props
    }

    /// The steps of drawing the canvas, where there is something to draw on.
    pub fn draw(&self) -> (ops: Vec<CanvasOp>)
        requires
            self@.ready ==> self@.drawable(),
        ensures
            ops@ == self@.drawing(),
    {
        let mut ops: Vec<CanvasOp> = Vec::new();
        if self.ready {
            ops.push(CanvasOp::ClearRect(self.props.width, self.props.height));
            let lines = &self.props.connections;
            for i in 0..lines.len()
                invariant
                    lines@ == self@.props.connections,
                    self@.drawable(),
                    ops@ == seq![CanvasOp::ClearRect(self.props.width, self.props.height)]
                        + lines_ops(lines@.take(i as int)),
            {
                assert(line_fits(lines@[i as int].0, lines@[i as int].1));
                let points = plan_line_points(lines[i].0, lines[i].1);
                push_path(&mut ops, &points);
                assert(lines@.take(i + 1).drop_last() =~= lines@.take(i as int));
            }
            assert(lines@.take(lines@.len() as int) =~= lines@);
        }
        ops
    }

    /// Whether `draw` can work out every line.
    pub fn can_draw(&self) -> (can: bool)
        ensures
            can == (self@.ready ==> self@.drawable()),
    {
        if self.ready {
            let lines = &self.props.connections;
            for i in 0..lines.len()
                invariant
                    lines@ == self@.props.connections,
                    self@.ready,
                    forall|j: int|
                        0 <= j < i ==> line_fits(#[trigger] lines@[j].0, lines@[j].1),
            {
                if !can_plan_line(lines[i].0, lines[i].1) {
                    assert(!line_fits(
                        self@.props.connections[i as int].0,
                        self@.props.connections[i as int].1,
                    ));
                    return false;
                }
            }
        }
        true
    }

    /// No message changes the canvas.
    pub fn update(&mut self) -> (should_render: bool)
        ensures
            *final(self) == *old(self),
            !should_render,
    {
        false
    }

    /// Takes on other lines.
    pub fn change(&mut self, props: ConnectionsProps) -> (should_render: bool)
        ensures
            final(self)@ == (ConnectionsView { props: props@, ..old(self)@ }),
            should_render,
    {
        self.props = props;
        true
    }

    /// Notes that the canvas has been put on the page, and whether its element was found there.
    pub fn mounted(&mut self, found: bool) -> (should_render: bool)
        ensures
            final(self)@ == (ConnectionsView { ready: old(self)@.ready || found, ..old(self)@ }),
            should_render,
    {
        if found {
            self.ready = true;
        }
        true
    }
}

/// A line has six points, from its start to its end, and each of its pieces runs straight across
/// or straight down. It leaves its start to the right, and comes to its end from the left.
pub proof fn law_lines_run_straight(start: Coords, end: Coords)
    requires
        line_fits(start, end),
    ensures
        ({
            let points = line_points(start, end);
            &&& points.len() == 6
            &&& points[0] == start
            &&& points[5] == end
            &&& forall|i: int|
                0 <= i < 5 ==> (#[trigger] points[i]).x == points[i + 1].x || points[i].y
                    == points[i + 1].y
            &&& points[1].x == start.x + end_segment().x && points[1].y == start.y
            &&& points[4].x == end.x - end_segment().x && points[4].y == end.y
        }),
{
}

/// A line does not stray: between its first turn and its last it stays within the box that these
/// two are corners of.
pub proof fn law_lines_stay_between_turns(start: Coords, end: Coords, i: int)
    requires
        line_fits(start, end),
        1 <= i <= 4,
    ensures
        ({
            let points = line_points(start, end);
            let first = points[1];
            let last = points[4];
            &&& first.x <= points[i].x <= last.x || last.x <= points[i].x <= first.x
            &&& first.y <= points[i].y <= last.y || last.y <= points[i].y <= first.y
        }),
{
}

/// The point opposite, seen from the corner of the page.
pub open spec fn opposite(point: Coords) -> Coords
    recommends
        fits(-point.x) && fits(-point.y),
{
    Coords { x: (-point.x) as i32, y: (-point.y) as i32 }
}

/// Turned by half a turn and followed from the other end, a line is again the line between its
/// ends.
pub proof fn law_lines_turn_around(start: Coords, end: Coords, i: int)
    requires
        line_fits(start, end),
        line_fits(opposite(end), opposite(start)),
        fits(-start.x) && fits(-start.y) && fits(-end.x) && fits(-end.y),
        0 <= i < 6,
    ensures
        line_points(opposite(end), opposite(start))[i] == opposite(line_points(start, end)[5 - i]),
{
}

/// Whether all numbers that a line takes are in range: where it first turns, where it last turns,
/// and the sum that is halved in between.
pub open spec fn line_in_range(start: Coords, end: Coords) -> bool {
    &&& start.x + 16 <= i32::MAX
    &&& i32::MIN <= end.x - 16
    &&& if start.x + 16 <= end.x - 16 {
        i32::MIN <= start.x + end.x <= i32::MAX
    } else {
        i32::MIN <= start.y + end.y <= i32::MAX
    }
}

/// Whether a number is half of another, or as near to it as can be, on the side of zero.
pub open spec fn is_half_of(n: int, whole: int) -> bool {
    ||| 0 <= whole && whole - 1 <= 2 * n <= whole
    ||| whole < 0 && whole <= 2 * n <= whole + 1
}

/// A line leaves its output to the right and comes to its input from the left, sixteen pixels each.
/// Where there is room between these pieces, it goes up or down halfway across; where there is
/// none, it goes across halfway down.
pub proof fn law_lines_cross_halfway(start: Coords, end: Coords, points: Vec<Coords>)
    requires
        call_ensures(plan_line_points, (start, end), points),
        line_in_range(start, end),
    ensures
        points@.len() == 6,
        points@[0] == start,
        points@[1].x == start.x + 16 && points@[1].y == start.y,
        points@[4].x == end.x - 16 && points@[4].y == end.y,
        points@[5] == end,
        start.x + 16 <= end.x - 16 ==> {
            &&& is_half_of(points@[2].x as int, start.x + end.x)
            &&& points@[3].x == points@[2].x
            &&& points@[2].y == start.y
            &&& points@[3].y == end.y
        },
        start.x + 16 > end.x - 16 ==> {
            &&& is_half_of(points@[2].y as int, start.y + end.y)
            &&& points@[3].y == points@[2].y
            &&& points@[2].x == start.x + 16
            &&& points@[3].x == end.x - 16
        },
{
}

/// A line can be worked out unless one of the numbers that it takes is out of range.
pub proof fn law_lines_can_be_planned(start: Coords, end: Coords, can: bool)
    requires
        call_ensures(can_plan_line, (start, end), can),
    ensures
        can <==> line_in_range(start, end),
        can ==> call_requires(plan_line_points, (start, end)),
{
}

/// The steps of drawing lines, line by line.
proof fn lemma_lines_ops(lines: Seq<(Coords, Coords)>, line: int, step: int)
    requires
        0 <= line < lines.len(),
        0 <= step < 8,
    ensures
        lines_ops(lines).len() == 8 * lines.len(),
        ({
            let points = line_points(lines[line].0, lines[line].1);
            lines_ops(lines)[8 * line + step] == if step == 0 {
                CanvasOp::BeginPath
            } else if step == 1 {
                CanvasOp::MoveTo(points[0])
            } else if step < 7 {
                CanvasOp::LineTo(points[step - 1])
            } else {
                CanvasOp::Stroke
            }
        }),
    decreases lines.len(),
{
    let rest = lines.drop_last();
    if rest.len() == 0 {
        assert(lines_ops(rest).len() == 0);
    } else if line < rest.len() {
        lemma_lines_ops(rest, line, step);
    } else {
        lemma_lines_ops(rest, 0, step);
    }
}

/// Once there is something to draw on, a drawing begins with wiping the whole canvas, and every
/// line is drawn on it in turn, through the points that are planned for it. Until then nothing is
/// drawn.
pub proof fn law_drawings_show_every_line(
    canvas: Connections,
    ops: Vec<CanvasOp>,
    line: int,
    points: Vec<Coords>,
)
    requires
        call_ensures(Connections::draw, (&canvas,), ops),
        0 <= line < canvas@.props.connections.len(),
        call_ensures(
            plan_line_points,
            (canvas@.props.connections[line].0, canvas@.props.connections[line].1),
            points,
        ),
    ensures
        !canvas@.ready ==> ops@.len() == 0,
        canvas@.ready ==> {
            &&& ops@.len() == 1 + 8 * canvas@.props.connections.len()
            &&& ops@[0] == CanvasOp::ClearRect(canvas@.props.width, canvas@.props.height)
            &&& points@.len() == 6
            &&& ops@.subrange(1 + 8 * line, 9 + 8 * line) == seq![
                CanvasOp::BeginPath,
                CanvasOp::MoveTo(points@[0]),
                CanvasOp::LineTo(points@[1]),
                CanvasOp::LineTo(points@[2]),
                CanvasOp::LineTo(points@[3]),
                CanvasOp::LineTo(points@[4]),
                CanvasOp::LineTo(points@[5]),
                CanvasOp::Stroke,
            ]
        },
{
    if canvas@.ready {
        let lines = canvas@.props.connections;
        assert forall|step: int| 0 <= step < 8 implies #[trigger] lines_ops(lines)[8 * line + step]
            == ops@.subrange(1 + 8 * line, 9 + 8 * line)[step] by {
            lemma_lines_ops(lines, line, step);
        }
        lemma_lines_ops(lines, line, 0);
        lemma_lines_ops(lines, line, 1);
        lemma_lines_ops(lines, line, 2);
        lemma_lines_ops(lines, line, 3);
        lemma_lines_ops(lines, line, 4);
        lemma_lines_ops(lines, line, 5);
        lemma_lines_ops(lines, line, 6);
        lemma_lines_ops(lines, line, 7);
    }
}

/// A canvas without lines is only wiped.
pub proof fn law_empty_drawings_are_blank(canvas: Connections, ops: Vec<CanvasOp>)
    requires
        call_ensures(Connections::draw, (&canvas,), ops),
        canvas@.props.connections.len() == 0,
    ensures
        ops@ == if canvas@.ready {
            seq![CanvasOp::ClearRect(canvas@.props.width, canvas@.props.height)]
        } else {
            seq![]
        },
{
}

/// A canvas can be drawn once all of its lines can be worked out, or while there is nothing to draw
/// on.
pub proof fn law_drawings_need_planned_lines(canvas: Connections, can: bool)
    requires
        call_ensures(Connections::can_draw, (&canvas,), can),
    ensures
        can ==> call_requires(Connections::draw, (&canvas,)),
        !canvas@.ready ==> can,
        canvas@.ready ==> (can <==> forall|i: int|
            0 <= i < canvas@.props.connections.len() ==> line_in_range(
                (#[trigger] canvas@.props.connections[i]).0,
                canvas@.props.connections[i].1,
            )),
{
    assert forall|i: int| 0 <= i < canvas@.props.connections.len() implies line_fits(
        (#[trigger] canvas@.props.connections[i]).0,
        canvas@.props.connections[i].1,
    ) == line_in_range(canvas@.props.connections[i].0, canvas@.props.connections[i].1) by {
    }
}

/// A new canvas shows what it is made of, once there is something to draw on.
pub proof fn law_a_new_canvas(props: ConnectionsProps, canvas: Connections)
    requires
        call_ensures(Connections::create, (props,), canvas),
    ensures
        !canvas@.ready,
        canvas@.props.width == props.width,
        canvas@.props.height == props.height,
        canvas@.props.connections == props.connections@,
{
}

/// A canvas that is given other lines is the same canvas, and shows these.
pub proof fn law_a_changed_canvas(canvas: &mut Connections, props: ConnectionsProps, render: bool)
    requires
        call_ensures(Connections::change, (canvas, props), render),
    ensures
        render,
        final(canvas)@.ready == old(canvas)@.ready,
        final(canvas)@.canvas == old(canvas)@.canvas,
        final(canvas)@.props.width == props.width,
        final(canvas)@.props.height == props.height,
        final(canvas)@.props.connections == props.connections@,
{
}

/// A canvas can be drawn on once its element has been found on the page, and ever after.
pub proof fn law_a_mounted_canvas(canvas: &mut Connections, found: bool, render: bool)
    requires
        call_ensures(Connections::mounted, (canvas, found), render),
    ensures
        render,
        final(canvas)@.ready <==> old(canvas)@.ready || found,
        final(canvas)@.canvas == old(canvas)@.canvas,
        final(canvas)@.props == old(canvas)@.props,
{
}

/// No message changes a canvas, and its element and lines can be asked for.
pub proof fn law_canvases_tell_what_they_hold(
    told: &mut Connections,
    render: bool,
    canvas: Connections,
    node: &yew::NodeRef,
    props: &ConnectionsProps,
)
    requires
        call_ensures(Connections::update, (told,), render),
        call_ensures(Connections::canvas, (&canvas,), node),
        call_ensures(Connections::props, (&canvas,), props),
    ensures
        *final(told) == *old(told),
        !render,
        *node == canvas@.canvas,
        props.width == canvas@.props.width,
        props.height == canvas@.props.height,
        props.connections@ == canvas@.props.connections,
{
}

} // verus!
