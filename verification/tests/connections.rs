use mixlab_workspace::{
    can_plan_line, plan_line_points, CanvasOp, Connections, ConnectionsProps, Coords,
};

fn at(x: i32, y: i32) -> Coords {
    Coords { x, y }
}

#[test]
fn line_with_room_turns_halfway_across() {
    let points = plan_line_points(at(0, 0), at(100, 50));
    assert_eq!(
        points,
        vec![at(0, 0), at(16, 0), at(50, 0), at(50, 50), at(84, 50), at(100, 50)]
    );
}

#[test]
fn line_without_room_turns_halfway_down() {
    let points = plan_line_points(at(100, 10), at(0, 50));
    assert_eq!(
        points,
        vec![at(100, 10), at(116, 10), at(116, 30), at(-16, 30), at(-16, 50), at(0, 50)]
    );
}

#[test]
fn line_with_just_enough_room_runs_across() {
    let points = plan_line_points(at(0, 0), at(32, 8));
    assert_eq!(points, vec![at(0, 0), at(16, 0), at(16, 0), at(16, 8), at(16, 8), at(32, 8)]);
    let points = plan_line_points(at(0, 0), at(31, 8));
    assert_eq!(points, vec![at(0, 0), at(16, 0), at(16, 4), at(15, 4), at(15, 8), at(31, 8)]);
}

#[test]
fn midpoints_are_rounded_towards_zero() {
    let points = plan_line_points(at(0, -1), at(0, -2));
    assert_eq!(points[2], at(16, -1));
    assert_eq!(points[3], at(-16, -1));
    let points = plan_line_points(at(-100, 0), at(-3, 0));
    assert_eq!(points[2], at(-51, 0));
    let points = plan_line_points(at(3, 0), at(100, 0));
    assert_eq!(points[2], at(51, 0));
}

#[test]
fn lines_run_straight_and_stay_between_their_turns() {
    for (start, end) in [(at(5, 7), at(300, -20)), (at(300, 9), at(-5, 1)), (at(0, 0), at(0, 0))] {
        let points = plan_line_points(start, end);
        assert_eq!(points.len(), 6);
        assert_eq!(points[0], start);
        assert_eq!(points[5], end);
        for i in 0..5 {
            assert!(points[i].x == points[i + 1].x || points[i].y == points[i + 1].y);
        }
        for p in &points[1..5] {
            assert!(p.x >= points[1].x.min(points[4].x) && p.x <= points[1].x.max(points[4].x));
            assert!(p.y >= points[1].y.min(points[4].y) && p.y <= points[1].y.max(points[4].y));
        }
    }
}

#[test]
fn lines_turn_around() {
    let opposite = |p: Coords| at(-p.x, -p.y);
    for (start, end) in [(at(5, 7), at(300, -20)), (at(300, 9), at(-5, 2)), (at(3, 0), at(100, 1))] {
        let points = plan_line_points(start, end);
        let mut turned = plan_line_points(opposite(end), opposite(start));
        turned.reverse();
        assert_eq!(turned.into_iter().map(opposite).collect::<Vec<Coords>>(), points);
    }
    assert_eq!(
        plan_line_points(at(-100, -50), at(0, 0)),
        vec![at(-100, -50), at(-84, -50), at(-50, -50), at(-50, 0), at(-16, 0), at(0, 0)]
    );
}

#[test]
fn lines_out_of_range_are_noticed() {
    assert!(can_plan_line(at(0, 0), at(100, 50)));
    assert!(!can_plan_line(at(i32::MAX - 15, 0), at(0, 0)));
    assert!(can_plan_line(at(i32::MAX - 16, 0), at(0, 0)));
    assert!(!can_plan_line(at(0, 0), at(i32::MIN + 15, 0)));
    assert!(!can_plan_line(at(1_500_000_000, 0), at(1_600_000_000, 0)));
    assert!(!can_plan_line(at(0, i32::MAX), at(0, 1)));
    assert!(can_plan_line(at(0, i32::MAX), at(100, i32::MAX)));
}

fn two_lines() -> ConnectionsProps {
    ConnectionsProps {
        width: 2000,
        height: 1000,
        connections: vec![(at(0, 0), at(100, 50)), (at(100, 10), at(0, 50))],
    }
}

#[test]
fn nothing_is_drawn_before_the_canvas_is_there() {
    let mut canvas = Connections::create(two_lines());
    assert!(canvas.can_draw());
    assert_eq!(canvas.draw(), vec![]);
    assert!(canvas.mounted(false));
    assert_eq!(canvas.draw(), vec![]);
    assert!(!canvas.update());
    assert_eq!(canvas.draw(), vec![]);
    assert!(canvas.canvas().get().is_none());
}

#[test]
fn lines_are_drawn_one_after_the_other() {
    let mut canvas = Connections::create(two_lines());
    assert!(canvas.mounted(true));
    assert!(canvas.mounted(false));
    assert_eq!(
        canvas.draw(),
        vec![
            CanvasOp::ClearRect(2000, 1000),
            CanvasOp::BeginPath,
            CanvasOp::MoveTo(at(0, 0)),
            CanvasOp::LineTo(at(16, 0)),
            CanvasOp::LineTo(at(50, 0)),
            CanvasOp::LineTo(at(50, 50)),
            CanvasOp::LineTo(at(84, 50)),
            CanvasOp::LineTo(at(100, 50)),
            CanvasOp::Stroke,
            CanvasOp::BeginPath,
            CanvasOp::MoveTo(at(100, 10)),
            CanvasOp::LineTo(at(116, 10)),
            CanvasOp::LineTo(at(116, 30)),
            CanvasOp::LineTo(at(-16, 30)),
            CanvasOp::LineTo(at(-16, 50)),
            CanvasOp::LineTo(at(0, 50)),
            CanvasOp::Stroke,
        ]
    );
}

#[test]
fn other_lines_replace_those_before() {
    let mut canvas = Connections::create(two_lines());
    canvas.mounted(true);
    let props = ConnectionsProps { width: 1, height: 2, connections: vec![] };
    assert!(canvas.change(props));
    assert_eq!(canvas.props().width, 1);
    assert_eq!(canvas.draw(), vec![CanvasOp::ClearRect(1, 2)]);
}

#[test]
fn canvas_with_a_line_out_of_range_cannot_be_drawn() {
    let mut props = two_lines();
    props.connections.push((at(i32::MAX, 0), at(0, 0)));
    let mut canvas = Connections::create(props);
    assert!(canvas.can_draw());
    canvas.mounted(true);
    assert!(!canvas.can_draw());
}
