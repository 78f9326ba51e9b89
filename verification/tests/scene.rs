use mixlab_workspace::order::{ids_in_order, keys_in_order};
use mixlab_workspace::{
    Coords, FmSineParams, Frequency, Indication, InputId, ModuleId, ModuleParams, MouseEvent,
    MouseMode, OutputDeviceIndication, OutputDeviceParams, OutputId, SineGeneratorParams, State,
    TerminalId, TerminalOffsets, WindowGeometry, Workspace, WorkspaceMsg, WorkspaceProps,
};
use std::collections::BTreeMap;

fn at(x: i32, y: i32) -> Coords {
    Coords { x, y }
}

fn geometry(x: i32, y: i32, z_index: usize) -> WindowGeometry {
    WindowGeometry { position: at(x, y), z_index }
}

fn in_(module: usize, index: usize) -> TerminalId {
    TerminalId::Input(InputId(ModuleId(module), index))
}

fn out(module: usize, index: usize) -> TerminalId {
    TerminalId::Output(OutputId(ModuleId(module), index))
}

fn device() -> ModuleParams {
    ModuleParams::OutputDevice(OutputDeviceParams { device: None })
}

/// A mixer, fed by itself on its first input, and an output device fed by the mixer.
fn wired() -> (Workspace, State, TerminalOffsets) {
    let mut state = State::new();
    state.modules.insert(11, device());
    state.modules.insert(4, ModuleParams::Mixer2ch(()));
    state.geometry.insert(11, geometry(500, 60, 2));
    state.geometry.insert(4, geometry(100, 50, 1));
    state.connections.insert((11, 0), OutputId(ModuleId(4), 0));
    state.connections.insert((4, 0), OutputId(ModuleId(4), 0));
    let workspace = Workspace::create(WorkspaceProps { state: &state, state_seq: 0 });
    let mut offsets = TerminalOffsets::new();
    offsets.record(in_(11, 0), at(1, 20));
    offsets.record(in_(4, 0), at(1, 20));
    offsets.record(in_(4, 1), at(1, 40));
    offsets.record(out(4, 0), at(90, 20));
    (workspace, state, offsets)
}

#[test]
fn keys_come_in_order() {
    let mut ids = BTreeMap::new();
    let mut keys = BTreeMap::new();
    for n in [5, 1, 9, 3] {
        ids.insert(n, ());
        keys.insert((n, 0), ());
        keys.insert((1, n), ());
    }
    assert_eq!(ids_in_order(&ids), vec![1, 3, 5, 9]);
    assert_eq!(
        keys_in_order(&keys),
        vec![(1, 0), (1, 1), (1, 3), (1, 5), (1, 9), (3, 0), (5, 0), (9, 0)]
    );
}

#[test]
fn offsets_are_kept_by_terminal() {
    let mut offsets = TerminalOffsets::new();
    assert_eq!(offsets.offset(in_(1, 2)), None);
    offsets.record(in_(1, 2), at(3, 4));
    offsets.record(out(1, 2), at(5, 6));
    assert_eq!(offsets.offset(in_(1, 2)), Some(at(3, 4)));
    assert_eq!(offsets.offset(out(1, 2)), Some(at(5, 6)));
    offsets.record(in_(1, 2), at(7, 8));
    assert_eq!(offsets.offset(in_(1, 2)), Some(at(7, 8)));
}

#[test]
fn terminals_are_at_their_middle() {
    let (ws, state, offsets) = wired();
    let coords = |t| ws.screen_coords_for_terminal(&state, &offsets, t);
    assert_eq!(coords(in_(11, 0)), Some(at(510, 89)));
    assert_eq!(coords(out(4, 0)), Some(at(199, 79)));
    assert_eq!(coords(in_(4, 1)), Some(at(110, 99)));
}

#[test]
fn terminals_that_are_not_there_have_no_place() {
    let (ws, mut state, mut offsets) = wired();
    offsets.record(in_(11, 1), at(0, 0));
    offsets.record(out(11, 0), at(0, 0));
    offsets.record(in_(77, 0), at(0, 0));
    let none = |state: &State, offsets: &TerminalOffsets, t| {
        assert!(ws.can_locate(state, offsets, t));
        ws.screen_coords_for_terminal(state, offsets, t).is_none()
    };
    assert!(none(&state, &offsets, in_(11, 1)));
    assert!(none(&state, &offsets, out(11, 0)));
    assert!(none(&state, &offsets, in_(77, 0)));
    assert!(none(&state, &TerminalOffsets::new(), in_(4, 0)));
    state.geometry.insert(77, geometry(0, 0, 0));
    assert!(none(&state, &offsets, in_(77, 0)));
    state.geometry.remove(&4);
    assert!(none(&state, &offsets, in_(4, 0)));
    assert!(ws.terminal_node(&state, in_(4, 0)).is_none());
    assert!(ws.terminal_node(&state, in_(11, 0)).is_some());
}

#[test]
fn scene_shows_windows_by_number() {
    let (ws, mut state, offsets) = wired();
    state.indications.insert(
        11,
        Indication::OutputDevice(OutputDeviceIndication { devices: Some(vec![]) }),
    );
    let scene = ws.scene(&state, &offsets);
    assert_eq!(scene.windows.len(), 2);
    let mixer = &scene.windows[0];
    assert_eq!(mixer.id, ModuleId(4));
    assert_eq!(mixer.module, ModuleParams::Mixer2ch(()));
    assert_eq!(mixer.name, "Mixer2ch");
    assert_eq!(mixer.geometry, geometry(100, 50, 1));
    assert_eq!(mixer.indication, None);
    assert_eq!((mixer.refs.inputs.len(), mixer.refs.outputs.len()), (2, 1));
    let output = &scene.windows[1];
    assert_eq!(output.id, ModuleId(11));
    assert_eq!(output.name, "OutputDevice");
    assert_eq!(
        output.indication,
        Some(Indication::OutputDevice(OutputDeviceIndication { devices: Some(vec![]) }))
    );
}

#[test]
fn scene_leaves_out_windows_without_module_or_place() {
    let (ws, mut state, offsets) = wired();
    state.modules.remove(&4);
    let scene = ws.scene(&state, &offsets);
    assert_eq!(scene.windows.len(), 1);
    assert_eq!(scene.windows[0].id, ModuleId(11));
    state.geometry.remove(&11);
    assert_eq!(ws.scene(&state, &offsets).windows.len(), 0);
    state.modules.insert(99, device());
    state.geometry.insert(99, geometry(0, 0, 0));
    assert_eq!(ws.scene(&state, &offsets).windows.len(), 0);
}

#[test]
fn scene_joins_connected_terminals_from_output_to_input() {
    let (ws, state, offsets) = wired();
    assert!(ws.can_show(&state, &offsets));
    let lines = ws.scene(&state, &offsets).connections;
    assert_eq!((lines.width, lines.height), (2000, 2000));
    assert_eq!(
        lines.connections,
        vec![(at(199, 79), at(110, 79)), (at(199, 79), at(510, 89))]
    );
}

#[test]
fn scene_shows_the_connection_being_drawn() {
    for (terminal, line) in [
        (in_(4, 1), (at(7, 8), at(110, 99))),
        (out(4, 0), (at(199, 79), at(7, 8))),
    ] {
        let (mut ws, mut state, offsets) = wired();
        state.connections.clear();
        ws.update(&mut state, WorkspaceMsg::SelectTerminal(terminal));
        assert_eq!(ws.scene(&state, &offsets).connections.connections, vec![]);
        assert_eq!(ws.line_terminals(&state), vec![]);
        let ev = MouseEvent { page_x: 7, page_y: 8, buttons: 0 };
        ws.update(&mut state, WorkspaceMsg::MouseMove(ev));
        assert_eq!(ws.scene(&state, &offsets).connections.connections, vec![line]);
        assert_eq!(ws.line_terminals(&state), vec![terminal]);
        let nowhere = TerminalOffsets::new();
        assert_eq!(ws.scene(&state, &nowhere).connections.connections, vec![]);
    }
}

#[test]
fn lines_need_only_the_places_of_their_ends() {
    let (ws, state, offsets) = wired();
    let ends = ws.line_terminals(&state);
    assert_eq!(ends, vec![in_(4, 0), out(4, 0), in_(11, 0), out(4, 0)]);
    let mut fewer = TerminalOffsets::new();
    for terminal in ends {
        fewer.record(terminal, offsets.offset(terminal).unwrap());
    }
    assert_eq!(fewer.offset(in_(4, 1)), None);
    assert_eq!(
        ws.scene(&state, &fewer).connections,
        ws.scene(&state, &offsets).connections
    );
}

#[test]
fn terminals_out_of_range_are_noticed() {
    let (ws, mut state, mut offsets) = wired();
    state.geometry.insert(4, geometry(i32::MAX, 0, 0));
    assert!(!ws.can_locate(&state, &offsets, out(4, 0)));
    assert!(!ws.can_show(&state, &offsets));
    state.geometry.insert(4, geometry(0, 0, 0));
    assert!(ws.can_show(&state, &offsets));
    offsets.record(out(4, 0), at(0, i32::MAX - 8));
    assert!(!ws.can_show(&state, &offsets));
    state.connections.clear();
    assert!(ws.can_show(&state, &offsets));
}

#[test]
fn output_out_of_range_does_not_matter_without_its_input() {
    let (ws, mut state, mut offsets) = wired();
    state.connections.remove(&(4, 0));
    offsets.record(out(4, 0), at(0, i32::MAX));
    assert!(!ws.can_show(&state, &offsets));
    offsets.inputs.remove(&(11, 0));
    assert!(ws.can_show(&state, &offsets));
    assert_eq!(ws.scene(&state, &offsets).connections.connections, vec![]);
}

#[test]
fn menu_is_shown_while_open() {
    let (mut ws, mut state, offsets) = wired();
    assert!(ws.view_context_menu().is_none());
    let ev = MouseEvent { page_x: 60, page_y: 70, buttons: 2 };
    ws.update(&mut state, WorkspaceMsg::MouseDown(ev));
    let menu = ws.scene(&state, &offsets).menu.unwrap();
    assert_eq!(menu.position, at(60, 70));
    assert_eq!(menu.style(), "left:60px; top:70px;");
    let hertz = |freq: f64| Frequency(freq.to_bits());
    let items: Vec<(&str, ModuleParams)> =
        menu.items.iter().map(|item| (item.label, item.params.clone())).collect();
    assert_eq!(
        items,
        vec![
            (
                "Sine Generator",
                ModuleParams::SineGenerator(SineGeneratorParams { freq: hertz(100.0) })
            ),
            ("Mixer (2 channel)", ModuleParams::Mixer2ch(())),
            ("Output Device", device()),
            (
                "FM Sine",
                ModuleParams::FmSine(FmSineParams { freq_lo: hertz(90.0), freq_hi: hertz(110.0) })
            ),
        ]
    );
}

#[test]
fn menu_choice_asks_for_a_module_where_the_menu_is() {
    let (mut ws, mut state, _) = wired();
    let ev = MouseEvent { page_x: 60, page_y: 70, buttons: 2 };
    ws.update(&mut state, WorkspaceMsg::MouseDown(ev));
    let menu = ws.view_context_menu().unwrap();
    let msg = menu.choose_item(1);
    assert_eq!(msg, WorkspaceMsg::CreateModule(ModuleParams::Mixer2ch(()), at(60, 70)));
    assert!(ws.accepts(&state, &msg));
    ws.update(&mut state, msg);
    assert_eq!(ws.mouse(), MouseMode::Normal);
    assert!(ws.view_context_menu().is_none());
}
