use mixlab_workspace::{
    ClientMessage, Coords, Drag, Effect, Frequency, Indication, InputId, ModuleId, ModuleParams,
    MouseEvent, MouseMode, OutputDeviceIndication, OutputDeviceParams, OutputId,
    SineGeneratorParams, State, TerminalId, Update, WindowGeometry, Workspace, WorkspaceMsg,
    WorkspaceProps,
};

fn at(x: i32, y: i32) -> Coords {
    Coords { x, y }
}

fn mouse(x: i32, y: i32, buttons: u16) -> MouseEvent {
    MouseEvent { page_x: x, page_y: y, buttons }
}

fn sine(freq: u64) -> ModuleParams {
    ModuleParams::SineGenerator(SineGeneratorParams { freq: Frequency(freq) })
}

fn input(module: usize, index: usize) -> InputId {
    InputId(ModuleId(module), index)
}

fn output(module: usize, index: usize) -> OutputId {
    OutputId(ModuleId(module), index)
}

/// Module 1 is a sine generator, 2 a mixer, 3 an output device.
fn state() -> State {
    let mut state = State::new();
    state.modules.insert(1, sine(1));
    state.modules.insert(2, ModuleParams::Mixer2ch(()));
    state.modules.insert(3, ModuleParams::OutputDevice(OutputDeviceParams { device: None }));
    state.geometry.insert(1, WindowGeometry { position: at(10, 20), z_index: 0 });
    state.geometry.insert(2, WindowGeometry { position: at(200, 20), z_index: 0 });
    state.geometry.insert(3, WindowGeometry { position: at(400, 20), z_index: 0 });
    state.connections.insert((2, 0), output(1, 0));
    state.connections.insert((2, 1), output(1, 0));
    state.connections.insert((3, 0), output(2, 0));
    state.indications.insert(
        3,
        Indication::OutputDevice(OutputDeviceIndication { devices: None }),
    );
    state
}

fn workspace(state: &State) -> Workspace {
    Workspace::create(WorkspaceProps { state, state_seq: 1 })
}

fn handle(workspace: &mut Workspace, state: &mut State, msg: WorkspaceMsg) -> Update {
    assert!(workspace.accepts(state, &msg));
    workspace.update(state, msg)
}

fn quiet(should_render: bool) -> Update {
    Update { should_render, effects: vec![] }
}

fn sent(should_render: bool, message: ClientMessage) -> Update {
    Update { should_render, effects: vec![Effect::Send(message)] }
}

#[test]
fn workspace_has_a_window_for_each_module() {
    let state = state();
    let mut ws = workspace(&state);
    assert_eq!(ws.mouse(), MouseMode::Normal);
    let counts = |id| {
        let refs = ws.window_ref(ModuleId(id)).unwrap();
        (refs.inputs.len(), refs.outputs.len())
    };
    assert_eq!(counts(1), (0, 1));
    assert_eq!(counts(2), (2, 1));
    assert_eq!(counts(3), (1, 0));
    assert!(ws.window_ref(ModuleId(4)).is_none());
    assert!(ws.mounted());
}

#[test]
fn change_opens_and_closes_windows() {
    let mut state = state();
    let mut ws = workspace(&state);
    assert!(!ws.change(WorkspaceProps { state: &state, state_seq: 1 }));

    state.modules.insert(9, sine(1));
    assert!(ws.change(WorkspaceProps { state: &state, state_seq: 1 }));
    assert!(ws.window_ref(ModuleId(9)).is_some());
    assert!(!ws.change(WorkspaceProps { state: &state, state_seq: 1 }));

    state.modules.remove(&1);
    state.modules.remove(&9);
    assert!(ws.change(WorkspaceProps { state: &state, state_seq: 1 }));
    assert!(ws.window_ref(ModuleId(1)).is_none());
    assert!(ws.window_ref(ModuleId(2)).is_some());
    assert!(ws.window_ref(ModuleId(9)).is_none());

    assert!(ws.change(WorkspaceProps { state: &state, state_seq: 2 }));
    assert!(!ws.change(WorkspaceProps { state: &state, state_seq: 2 }));
}

#[test]
fn change_renders_when_a_module_takes_the_place_of_another() {
    let mut state = state();
    let mut ws = workspace(&state);
    state.modules.remove(&1);
    state.modules.insert(5, ModuleParams::Mixer2ch(()));
    assert!(ws.change(WorkspaceProps { state: &state, state_seq: 1 }));
    assert!(ws.window_ref(ModuleId(1)).is_none());
    assert_eq!(ws.window_ref(ModuleId(5)).unwrap().inputs.len(), 2);
}

#[test]
fn create_window_adds_a_window() {
    let mut ws = workspace(&State::new());
    ws.create_window(ModuleId(8), &ModuleParams::Mixer2ch(()));
    assert_eq!(ws.window_ref(ModuleId(8)).unwrap().inputs.len(), 2);
    ws.create_window(ModuleId(8), &sine(0));
    assert_eq!(ws.window_ref(ModuleId(8)).unwrap().inputs.len(), 0);
    assert_eq!(ws.window_ref(ModuleId(8)).unwrap().outputs.len(), 1);
}

#[test]
fn dragging_moves_a_window_with_the_pointer() {
    let mut st = state();
    let mut ws = workspace(&st);
    let update = handle(&mut ws, &mut st, WorkspaceMsg::DragStart(ModuleId(1), mouse(12, 22, 1)));
    assert_eq!(update, quiet(true));
    assert_eq!(ws.mouse(), MouseMode::Drag(Drag { module: ModuleId(1), origin: at(12, 22) }));
    assert_eq!(st.geometry[&1], WindowGeometry { position: at(10, 20), z_index: 0 });

    let update = handle(&mut ws, &mut st, WorkspaceMsg::MouseMove(mouse(20, 15, 1)));
    assert_eq!(
        update,
        Update {
            should_render: true,
            effects: vec![Effect::MoveWindow(ModuleId(1), at(18, 13))]
        }
    );
    assert_eq!(ws.mouse(), MouseMode::Drag(Drag { module: ModuleId(1), origin: at(20, 15) }));

    let update = handle(&mut ws, &mut st, WorkspaceMsg::MouseUp(mouse(21, 15, 0)));
    let geometry = WindowGeometry { position: at(19, 13), z_index: 0 };
    assert_eq!(
        update,
        Update {
            should_render: true,
            effects: vec![
                Effect::MoveWindow(ModuleId(1), at(19, 13)),
                Effect::Send(ClientMessage::UpdateWindowGeometry(ModuleId(1), geometry)),
            ]
        }
    );
    assert_eq!(st.geometry[&1], geometry);
    assert_eq!(ws.mouse(), MouseMode::Normal);
}

#[test]
fn dragging_adds_up_and_back_restores() {
    let mut one = state();
    let mut two = state();
    let mut ws_one = workspace(&one);
    let mut ws_two = workspace(&two);
    let start = || WorkspaceMsg::DragStart(ModuleId(2), mouse(5, 5, 1));
    handle(&mut ws_one, &mut one, start());
    handle(&mut ws_two, &mut two, start());
    let taken = one.geometry[&2];
    handle(&mut ws_one, &mut one, WorkspaceMsg::MouseMove(mouse(-70, 33, 1)));
    handle(&mut ws_one, &mut one, WorkspaceMsg::MouseMove(mouse(8, 9, 1)));
    handle(&mut ws_two, &mut two, WorkspaceMsg::MouseMove(mouse(8, 9, 1)));
    assert_eq!(one, two);
    assert_eq!(ws_one.mouse(), ws_two.mouse());
    handle(&mut ws_one, &mut one, WorkspaceMsg::MouseMove(mouse(5, 5, 1)));
    assert_eq!(one.geometry[&2], taken);
}

#[test]
fn window_follows_the_pointer_through_many_moves() {
    let mut st = state();
    let mut ws = workspace(&st);
    handle(&mut ws, &mut st, WorkspaceMsg::DragStart(ModuleId(2), mouse(205, 30, 1)));
    for (x, y) in [(206, 31), (150, 400), (-3, -8), (1000, 0), (260, 35)] {
        handle(&mut ws, &mut st, WorkspaceMsg::MouseMove(mouse(x, y, 1)));
        assert_eq!(st.geometry[&2].position, at(200 + x - 205, 20 + y - 30));
    }
    assert_eq!(st.geometry[&2].position, at(255, 25));
    assert_eq!(ws.mouse(), MouseMode::Drag(Drag { module: ModuleId(2), origin: at(260, 35) }));
    assert_eq!(st.geometry[&1], WindowGeometry { position: at(10, 20), z_index: 0 });
    assert_eq!(st.connections, state().connections);
}

#[test]
fn window_without_a_place_is_not_dragged() {
    let mut st = state();
    let mut ws = workspace(&st);
    let update = handle(&mut ws, &mut st, WorkspaceMsg::DragStart(ModuleId(7), mouse(1, 1, 1)));
    assert_eq!(update, quiet(false));
    assert_eq!(ws.mouse(), MouseMode::Normal);

    handle(&mut ws, &mut st, WorkspaceMsg::DragStart(ModuleId(1), mouse(1, 1, 1)));
    st.geometry.remove(&1);
    let update = handle(&mut ws, &mut st, WorkspaceMsg::MouseMove(mouse(3, 4, 1)));
    assert_eq!(update, quiet(false));
    assert_eq!(ws.mouse(), MouseMode::Drag(Drag { module: ModuleId(1), origin: at(3, 4) }));
    let update = handle(&mut ws, &mut st, WorkspaceMsg::MouseUp(mouse(3, 4, 0)));
    assert_eq!(update, quiet(false));
    assert_eq!(ws.mouse(), MouseMode::Normal);
}

#[test]
fn window_without_an_element_is_moved_in_the_state_only() {
    let mut st = state();
    let mut ws = workspace(&State::new());
    handle(&mut ws, &mut st, WorkspaceMsg::DragStart(ModuleId(1), mouse(0, 0, 1)));
    let update = handle(&mut ws, &mut st, WorkspaceMsg::MouseMove(mouse(1, 1, 1)));
    assert_eq!(update, quiet(true));
    assert_eq!(st.geometry[&1].position, at(11, 21));
}

#[test]
fn drags_out_of_range_are_not_accepted() {
    let mut st = state();
    let mut ws = workspace(&st);
    st.geometry.insert(1, WindowGeometry { position: at(i32::MAX, 0), z_index: 0 });
    handle(&mut ws, &mut st, WorkspaceMsg::DragStart(ModuleId(1), mouse(-10, 0, 1)));
    assert!(!ws.accepts(&st, &WorkspaceMsg::MouseMove(mouse(-9, 0, 1))));
    assert!(ws.accepts(&st, &WorkspaceMsg::MouseMove(mouse(-11, 0, 1))));
    assert!(!ws.accepts(&st, &WorkspaceMsg::MouseUp(mouse(i32::MAX, 0, 1))));
    st.geometry.remove(&1);
    assert!(ws.accepts(&st, &WorkspaceMsg::MouseMove(mouse(-9, 0, 1))));
    assert!(!ws.accepts(&st, &WorkspaceMsg::MouseUp(mouse(i32::MAX, 0, 1))));
}

#[test]
fn taking_hold_brings_to_the_front() {
    let mut st = state();
    let mut ws = workspace(&st);
    handle(&mut ws, &mut st, WorkspaceMsg::DragStart(ModuleId(3), mouse(0, 0, 1)));
    handle(&mut ws, &mut st, WorkspaceMsg::MouseUp(mouse(0, 0, 0)));
    handle(&mut ws, &mut st, WorkspaceMsg::DragStart(ModuleId(1), mouse(0, 0, 1)));
    handle(&mut ws, &mut st, WorkspaceMsg::MouseUp(mouse(0, 0, 0)));
    handle(&mut ws, &mut st, WorkspaceMsg::DragStart(ModuleId(2), mouse(0, 0, 1)));
    let z = |id: usize| st.geometry[&id].z_index;
    assert_eq!((z(3), z(1), z(2)), (0, 1, 2));
}

#[test]
fn a_drag_is_ended_by_letting_go_only() {
    let mut st = state();
    let mut ws = workspace(&st);
    handle(&mut ws, &mut st, WorkspaceMsg::DragStart(ModuleId(1), mouse(0, 0, 1)));
    let dragging = MouseMode::Drag(Drag { module: ModuleId(1), origin: at(0, 0) });
    let terminal = TerminalId::Output(output(1, 0));
    assert_eq!(handle(&mut ws, &mut st, WorkspaceMsg::SelectTerminal(terminal)), quiet(false));
    assert_eq!(ws.mouse(), dragging);
    assert_eq!(handle(&mut ws, &mut st, WorkspaceMsg::MouseDown(mouse(4, 4, 1))), quiet(false));
    assert_eq!(ws.mouse(), dragging);
    let update = handle(&mut ws, &mut st, WorkspaceMsg::MouseDown(mouse(4, 4, 2)));
    assert_eq!(
        update,
        Update {
            should_render: true,
            effects: vec![Effect::PreventDefault, Effect::StopPropagation]
        }
    );
    assert_eq!(ws.mouse(), dragging);
}

#[test]
fn right_click_opens_the_menu_and_left_click_closes_it() {
    let mut st = state();
    let mut ws = workspace(&st);
    assert_eq!(handle(&mut ws, &mut st, WorkspaceMsg::MouseDown(mouse(1, 2, 1))), quiet(false));
    let update = handle(&mut ws, &mut st, WorkspaceMsg::MouseDown(mouse(30, 40, 2)));
    assert_eq!(
        update,
        Update {
            should_render: true,
            effects: vec![Effect::PreventDefault, Effect::StopPropagation]
        }
    );
    assert_eq!(ws.mouse(), MouseMode::ContextMenu(at(30, 40)));
    handle(&mut ws, &mut st, WorkspaceMsg::MouseDown(mouse(31, 41, 3)));
    assert_eq!(ws.mouse(), MouseMode::ContextMenu(at(31, 41)));
    assert_eq!(handle(&mut ws, &mut st, WorkspaceMsg::MouseMove(mouse(9, 9, 0))), quiet(false));
    assert_eq!(handle(&mut ws, &mut st, WorkspaceMsg::MouseUp(mouse(9, 9, 0))), quiet(false));
    assert_eq!(ws.mouse(), MouseMode::ContextMenu(at(31, 41)));
    assert_eq!(handle(&mut ws, &mut st, WorkspaceMsg::MouseDown(mouse(0, 0, 1))), quiet(true));
    assert_eq!(ws.mouse(), MouseMode::Normal);
    assert_eq!(st, state());
}

#[test]
fn connections_are_drawn_from_either_end() {
    let ends = [TerminalId::Input(input(3, 0)), TerminalId::Output(output(1, 0))];
    for (first, second) in [(ends[0], ends[1]), (ends[1], ends[0])] {
        let mut st = state();
        let mut ws = workspace(&st);
        assert_eq!(handle(&mut ws, &mut st, WorkspaceMsg::SelectTerminal(first)), quiet(false));
        assert_eq!(ws.mouse(), MouseMode::Connect(first, None));
        let update = handle(&mut ws, &mut st, WorkspaceMsg::MouseMove(mouse(6, 7, 0)));
        assert_eq!(update, quiet(true));
        assert_eq!(ws.mouse(), MouseMode::Connect(first, Some(at(6, 7))));
        assert_eq!(handle(&mut ws, &mut st, WorkspaceMsg::MouseUp(mouse(6, 7, 0))), quiet(false));
        let update = handle(&mut ws, &mut st, WorkspaceMsg::SelectTerminal(second));
        assert_eq!(
            update,
            sent(true, ClientMessage::CreateConnection(input(3, 0), output(1, 0)))
        );
        assert_eq!(ws.mouse(), MouseMode::Normal);
        assert_eq!(st.connections[&(3, 0)], output(1, 0));
        assert_eq!(st.connections.len(), 3);
    }
}

#[test]
fn terminals_of_one_side_do_not_connect() {
    for (first, second) in [
        (TerminalId::Input(input(2, 0)), TerminalId::Input(input(3, 0))),
        (TerminalId::Output(output(1, 0)), TerminalId::Output(output(2, 0))),
    ] {
        let mut st = state();
        let mut ws = workspace(&st);
        handle(&mut ws, &mut st, WorkspaceMsg::SelectTerminal(first));
        assert_eq!(handle(&mut ws, &mut st, WorkspaceMsg::SelectTerminal(second)), quiet(false));
        assert_eq!(ws.mouse(), MouseMode::Connect(first, None));
        assert_eq!(st, state());
    }
}

#[test]
fn connecting_is_given_up_by_right_click_only() {
    let mut st = state();
    let mut ws = workspace(&st);
    let terminal = TerminalId::Input(input(2, 0));
    handle(&mut ws, &mut st, WorkspaceMsg::MouseDown(mouse(1, 1, 2)));
    handle(&mut ws, &mut st, WorkspaceMsg::SelectTerminal(terminal));
    assert_eq!(ws.mouse(), MouseMode::Connect(terminal, None));
    assert_eq!(handle(&mut ws, &mut st, WorkspaceMsg::MouseDown(mouse(1, 1, 1))), quiet(false));
    assert_eq!(ws.mouse(), MouseMode::Connect(terminal, None));
    handle(&mut ws, &mut st, WorkspaceMsg::MouseDown(mouse(1, 1, 2)));
    assert_eq!(ws.mouse(), MouseMode::Normal);
}

#[test]
fn clearing_an_input_undoes_connecting_it() {
    let mut st = state();
    st.connections.remove(&(3, 0));
    let mut ws = workspace(&st);
    handle(&mut ws, &mut st, WorkspaceMsg::SelectTerminal(TerminalId::Output(output(2, 0))));
    handle(&mut ws, &mut st, WorkspaceMsg::SelectTerminal(TerminalId::Input(input(3, 0))));
    assert!(st.connections.contains_key(&(3, 0)));
    let clear = WorkspaceMsg::ClearTerminal(TerminalId::Input(input(3, 0)));
    let update = handle(&mut ws, &mut st, clear);
    assert_eq!(update, sent(true, ClientMessage::DeleteConnection(input(3, 0))));
    assert!(!st.connections.contains_key(&(3, 0)));
    assert_eq!(st.connections.len(), 2);

    let clear = WorkspaceMsg::ClearTerminal(TerminalId::Input(input(3, 0)));
    let update = handle(&mut ws, &mut st, clear);
    assert_eq!(update, sent(true, ClientMessage::DeleteConnection(input(3, 0))));
    assert_eq!(st.connections.len(), 2);
}

#[test]
fn clearing_an_output_takes_out_all_that_it_feeds() {
    let mut st = state();
    let mut ws = workspace(&st);
    let clear = WorkspaceMsg::ClearTerminal(TerminalId::Output(output(1, 0)));
    let update = handle(&mut ws, &mut st, clear);
    assert_eq!(
        update,
        Update {
            should_render: true,
            effects: vec![Effect::SendBatch(vec![
                ClientMessage::DeleteConnection(input(2, 0)),
                ClientMessage::DeleteConnection(input(2, 1)),
            ])]
        }
    );
    assert_eq!(st.connections.len(), 1);
    assert_eq!(st.connections[&(3, 0)], output(2, 0));

    let clear = WorkspaceMsg::ClearTerminal(TerminalId::Output(output(1, 0)));
    let update = handle(&mut ws, &mut st, clear);
    assert_eq!(update.effects, vec![Effect::SendBatch(vec![])]);
    assert!(update.should_render);
}

#[test]
fn deleting_a_window_leaves_no_trace_of_the_module() {
    let mut st = state();
    let mut ws = workspace(&st);
    let update = handle(&mut ws, &mut st, WorkspaceMsg::DeleteWindow(ModuleId(2)));
    assert_eq!(update, sent(true, ClientMessage::DeleteModule(ModuleId(2))));
    assert!(!st.modules.contains_key(&2));
    assert!(!st.geometry.contains_key(&2));
    assert!(st.connections.is_empty());
    assert_eq!(st.modules.len(), 2);
    assert_eq!(st.geometry.len(), 2);
    assert_eq!(st.indications.len(), 1);

    let mut st = state();
    handle(&mut ws, &mut st, WorkspaceMsg::DeleteWindow(ModuleId(3)));
    assert_eq!(st.connections.len(), 2);
    assert!(!st.connections.contains_key(&(3, 0)));
    assert!(st.indications.contains_key(&3));
}

#[test]
fn settings_of_the_same_kind_are_taken_on() {
    let mut st = state();
    let mut ws = workspace(&st);
    let update = handle(&mut ws, &mut st, WorkspaceMsg::UpdateModuleParams(ModuleId(1), sine(7)));
    assert_eq!(update, sent(true, ClientMessage::UpdateModuleParams(ModuleId(1), sine(7))));
    assert_eq!(st.modules[&1], sine(7));
}

#[test]
fn settings_of_another_kind_are_turned_down() {
    let mut st = state();
    let mut ws = workspace(&st);
    let update = handle(&mut ws, &mut st, WorkspaceMsg::UpdateModuleParams(ModuleId(2), sine(7)));
    assert_eq!(update, quiet(false));
    let update = handle(&mut ws, &mut st, WorkspaceMsg::UpdateModuleParams(ModuleId(8), sine(7)));
    assert_eq!(update, quiet(false));
    assert_eq!(st, state());
}

#[test]
fn modules_are_asked_for_in_front() {
    let mut st = state();
    let mut ws = workspace(&st);
    handle(&mut ws, &mut st, WorkspaceMsg::DragStart(ModuleId(1), mouse(0, 0, 1)));
    handle(&mut ws, &mut st, WorkspaceMsg::MouseUp(mouse(0, 0, 0)));
    let before = st.modules.len();
    let update = handle(&mut ws, &mut st, WorkspaceMsg::CreateModule(sine(5), at(70, 80)));
    let geometry = WindowGeometry { position: at(70, 80), z_index: 1 };
    assert_eq!(update, sent(false, ClientMessage::CreateModule(sine(5), geometry)));
    assert_eq!(ws.mouse(), MouseMode::Normal);
    assert_eq!(st.modules.len(), before);
}

/// What one ends up with who takes the messages at their word.
fn replay(state: &mut State, effects: &[Effect]) {
    for effect in effects {
        let messages: Vec<&ClientMessage> = match effect {
            Effect::Send(message) => vec![message],
            Effect::SendBatch(messages) => messages.iter().collect(),
            _ => vec![],
        };
        for message in messages {
            match message {
                ClientMessage::CreateModule(_, _) => {}
                ClientMessage::UpdateModuleParams(id, params) => {
                    state.modules.insert(id.0, params.clone());
                }
                ClientMessage::UpdateWindowGeometry(id, geometry) => {
                    state.geometry.insert(id.0, *geometry);
                }
                ClientMessage::DeleteModule(id) => state.delete_module(*id),
                ClientMessage::CreateConnection(input, output) => {
                    state.connections.insert(input.key(), *output);
                }
                ClientMessage::DeleteConnection(input) => {
                    state.connections.remove(&input.key());
                }
            }
        }
    }
}

#[test]
fn the_mixer_is_told_of_every_change() {
    let mut here = state();
    let mut there = state();
    let mut ws = workspace(&here);
    let messages = vec![
        WorkspaceMsg::SelectTerminal(TerminalId::Output(output(1, 0))),
        WorkspaceMsg::SelectTerminal(TerminalId::Input(input(3, 0))),
        WorkspaceMsg::UpdateModuleParams(ModuleId(1), sine(99)),
        WorkspaceMsg::ClearTerminal(TerminalId::Output(output(1, 0))),
        WorkspaceMsg::SelectTerminal(TerminalId::Input(input(2, 1))),
        WorkspaceMsg::SelectTerminal(TerminalId::Output(output(2, 0))),
        WorkspaceMsg::ClearTerminal(TerminalId::Input(input(2, 1))),
        WorkspaceMsg::MouseDown(mouse(1, 1, 2)),
        WorkspaceMsg::CreateModule(sine(2), at(1, 1)),
        WorkspaceMsg::DeleteWindow(ModuleId(2)),
    ];
    for msg in messages {
        let update = handle(&mut ws, &mut here, msg);
        replay(&mut there, &update.effects);
        assert_eq!(here, there);
    }
    let mut effects = vec![];
    for msg in vec![
        WorkspaceMsg::DragStart(ModuleId(1), mouse(0, 0, 1)),
        WorkspaceMsg::MouseMove(mouse(40, 2, 1)),
        WorkspaceMsg::MouseUp(mouse(41, 3, 0)),
    ] {
        effects.extend(handle(&mut ws, &mut here, msg).effects);
    }
    assert_ne!(here, there);
    replay(&mut there, &effects);
    assert_eq!(here, there);
}

#[test]
fn state_lists_and_takes_out_what_an_output_feeds() {
    let mut st = state();
    assert_eq!(st.disconnect_output(output(1, 0)), vec![input(2, 0), input(2, 1)]);
    assert_eq!(st.disconnect_output(output(1, 0)), vec![]);
    assert_eq!(st.disconnect_output(output(2, 1)), vec![]);
    assert_eq!(st.connections.len(), 1);
}

#[test]
fn layers_are_handed_out_from_zero() {
    let mut st = state();
    st.geometry.insert(2, WindowGeometry { position: at(0, 0), z_index: 9 });
    let mut ws = workspace(&st);
    handle(&mut ws, &mut st, WorkspaceMsg::DragStart(ModuleId(1), mouse(0, 0, 1)));
    assert_eq!(st.geometry[&1].z_index, 0);
    assert_eq!(st.geometry[&2].z_index, 9);
}
