//! How a message changes the workspace and the state that it shows.

use vstd::prelude::*;

use crate::message::{Drag, EffectView, MouseMode, UpdateView, WorkspaceMsg};
use crate::protocol::{
    ClientMessage, Coords, InputId, OutputId, TerminalId, WindowGeometry,
};
use crate::state::{comes_from, without, StateView};
use crate::window_ref::WindowRefView;

verus! {

/// What a workspace holds of its own.
#[verifier::ext_equal]
pub struct WorkspaceView {
    pub mouse: MouseMode,
    /// The layer that the next window to be raised goes to.
    pub next_z: nat,
    /// The windows, by the numbers of their modules.
    pub windows: Map<usize, WindowRefView>,
    /// The number of the state that was last shown.
    pub state_seq: usize,
}

/// The connection that two terminals make: none, unless one is an input and the other an output.
pub open spec fn connection_between(a: TerminalId, b: TerminalId) -> Option<(InputId, OutputId)> {
    match (a, b) {
        (TerminalId::Input(input), TerminalId::Output(output)) => Some((input, output)),
        (TerminalId::Output(output), TerminalId::Input(input)) => Some((input, output)),
        _ => None,
    }
}

/// Where a dragged window stands once the pointer has gone on to the given point.
pub open spec fn dragged(geometry: WindowGeometry, drag: Drag, to: Coords) -> WindowGeometry {
    WindowGeometry { position: geometry.position.plus(to.minus(drag.origin)), ..geometry }
}

/// The state once the dragged window has followed the pointer.
pub open spec fn drag_state(s: StateView, drag: Drag, to: Coords) -> StateView {
    if s.geometry.contains_key(drag.module.0) {
        StateView {
            geometry: s.geometry.insert(
                drag.module.0,
                dragged(s.geometry[drag.module.0], drag, to),
            ),
            ..s
        }
    } else {
        s
    }
}

/// Whether dragging to the given point keeps within the numbers that coordinates can hold.
pub open spec fn drag_fits(s: StateView, drag: Drag, to: Coords) -> bool {
    &&& to.difference_fits(drag.origin)
    &&& s.geometry.contains_key(drag.module.0)
        ==> s.geometry[drag.module.0].position.sum_fits(to.minus(drag.origin))
}

/// What dragging does on the page: the window's element follows, where there is one.
pub open spec fn drag_effects(
    windows: Map<usize, WindowRefView>,
    s: StateView,
    drag: Drag,
    to: Coords,
) -> Seq<EffectView> {
    if s.geometry.contains_key(drag.module.0) && windows.contains_key(drag.module.0) {
        seq![
            EffectView::MoveWindow(
                drag.module,
                dragged(s.geometry[drag.module.0], drag, to).position,
            ),
        ]
    } else {
        seq![]
    }
}

/// Whether the message brings a window to the front.
pub open spec fn raises(s: StateView, msg: WorkspaceMsg) -> bool {
    match msg {
        WorkspaceMsg::DragStart(module, _) => s.geometry.contains_key(module.0),
        WorkspaceMsg::CreateModule(_, _) => true,
        _ => false,
    }
}

/// Whether the message can be handled: there is a layer left for a window to be raised to, and a
/// window to be dragged stays within the numbers that coordinates can hold.
pub open spec fn acceptable(w: WorkspaceView, s: StateView, msg: WorkspaceMsg) -> bool {
    &&& raises(s, msg) ==> w.next_z < usize::MAX
    &&& match (w.mouse, msg) {
        (MouseMode::Drag(drag), WorkspaceMsg::MouseMove(ev)) => drag_fits(s, drag, ev.position()),
        (MouseMode::Drag(drag), WorkspaceMsg::MouseUp(ev)) => drag_fits(s, drag, ev.position()),
        _ => true,
    }
}

/// What the pointer is used for after the message.
pub open spec fn next_mouse(mouse: MouseMode, s: StateView, msg: WorkspaceMsg) -> MouseMode {
    match (msg, mouse) {
        (WorkspaceMsg::DragStart(module, ev), _) => if s.geometry.contains_key(module.0) {
            MouseMode::Drag(Drag { module, origin: ev.position() })
        } else {
            mouse
        },
        (WorkspaceMsg::MouseDown(ev), MouseMode::Normal) => if ev.right_button() {
            MouseMode::ContextMenu(ev.position())
        } else {
            MouseMode::Normal
        },
        (WorkspaceMsg::MouseDown(ev), MouseMode::ContextMenu(_)) => if ev.right_button() {
            MouseMode::ContextMenu(ev.position())
        } else {
            MouseMode::Normal
        },
        (WorkspaceMsg::MouseDown(ev), MouseMode::Connect(_, _)) => if ev.right_button() {
            MouseMode::Normal
        } else {
            mouse
        },
        (WorkspaceMsg::MouseUp(_), MouseMode::Drag(_)) => MouseMode::Normal,
        (WorkspaceMsg::MouseMove(ev), MouseMode::Drag(drag)) => MouseMode::Drag(
            Drag { origin: ev.position(), ..drag },
        ),
        (WorkspaceMsg::MouseMove(ev), MouseMode::Connect(terminal, _)) => MouseMode::Connect(
            terminal,
            Some(ev.position()),
        ),
        (WorkspaceMsg::SelectTerminal(terminal), MouseMode::Normal) => MouseMode::Connect(
            terminal,
            None,
        ),
        (WorkspaceMsg::SelectTerminal(terminal), MouseMode::ContextMenu(_)) => MouseMode::Connect(
            terminal,
            None,
        ),
        (WorkspaceMsg::SelectTerminal(terminal), MouseMode::Connect(other, _)) =>
            if connection_between(terminal, other) is Some {
                MouseMode::Normal
            } else {
                mouse
            },
        (WorkspaceMsg::CreateModule(_, _), _) => MouseMode::Normal,
        _ => mouse,
    }
}

/// The state after the message.
pub open spec fn next_state(w: WorkspaceView, s: StateView, msg: WorkspaceMsg) -> StateView {
    match msg {
        WorkspaceMsg::DragStart(module, _) => if s.geometry.contains_key(module.0) {
            StateView {
                geometry: s.geometry.insert(
                    module.0,
                    WindowGeometry { z_index: w.next_z as usize, ..s.geometry[module.0] },
                ),
                ..s
            }
        } else {
            s
        },
        WorkspaceMsg::MouseUp(ev) => match w.mouse {
            MouseMode::Drag(drag) => drag_state(s, drag, ev.position()),
            _ => s,
        },
        WorkspaceMsg::MouseMove(ev) => match w.mouse {
            MouseMode::Drag(drag) => drag_state(s, drag, ev.position()),
            _ => s,
        },
        WorkspaceMsg::SelectTerminal(terminal) => match w.mouse {
            MouseMode::Connect(other, _) => match connection_between(terminal, other) {
                Some((input, output)) => StateView {
                    connections: s.connections.insert(input.key(), output),
                    ..s
                },
                None => s,
            },
            _ => s,
        },
        WorkspaceMsg::ClearTerminal(TerminalId::Input(input)) => StateView {
            connections: s.connections.remove(input.key()),
            ..s
        },
        WorkspaceMsg::ClearTerminal(TerminalId::Output(output)) => StateView {
            connections: without(s.connections, comes_from(s.connections, output)),
            ..s
        },
        WorkspaceMsg::DeleteWindow(module) => s.without_module(module),
        WorkspaceMsg::UpdateModuleParams(module, params) => if can_set(s, msg) {
            StateView { modules: s.modules.insert(module.0, params), ..s }
        } else {
            s
        },
        _ => s,
    }
}

/// Whether the message gives a known module settings of its own kind.
pub open spec fn can_set(s: StateView, msg: WorkspaceMsg) -> bool {
    match msg {
        WorkspaceMsg::UpdateModuleParams(module, params) => {
            &&& s.modules.contains_key(module.0)
            &&& s.modules[module.0].same_kind(params)
        },
        _ => false,
    }
}

/// Whether the workspace has to be shown anew after the message.
pub open spec fn should_render(mouse: MouseMode, s: StateView, msg: WorkspaceMsg) -> bool {
    match (msg, mouse) {
        (WorkspaceMsg::DragStart(module, _), _) => s.geometry.contains_key(module.0),
        (WorkspaceMsg::MouseDown(ev), _) => ev.right_button() || mouse is ContextMenu,
        (WorkspaceMsg::MouseUp(_), MouseMode::Drag(drag)) => s.geometry.contains_key(
            drag.module.0,
        ),
        (WorkspaceMsg::MouseMove(_), MouseMode::Drag(drag)) => s.geometry.contains_key(
            drag.module.0,
        ),
        (WorkspaceMsg::MouseMove(_), MouseMode::Connect(_, _)) => true,
        (WorkspaceMsg::SelectTerminal(terminal), MouseMode::Connect(other, _)) =>
            connection_between(terminal, other) is Some,
        (WorkspaceMsg::ClearTerminal(_), _) => true,
        (WorkspaceMsg::DeleteWindow(_), _) => true,
        (WorkspaceMsg::UpdateModuleParams(_, _), _) => can_set(s, msg),
        _ => false,
    }
}

/// The messages that take out each of the connections to the given inputs.
pub open spec fn deletions(inputs: Seq<InputId>) -> Seq<ClientMessage> {
    inputs.map_values(|input: InputId| ClientMessage::DeleteConnection(input))
}

/// What is to be done outside of the workspace after the message.
pub open spec fn effects(w: WorkspaceView, s: StateView, msg: WorkspaceMsg) -> Seq<EffectView> {
    match msg {
        WorkspaceMsg::MouseDown(ev) => if ev.right_button() {
            seq![EffectView::PreventDefault, EffectView::StopPropagation]
        } else {
            seq![]
        },
        WorkspaceMsg::MouseUp(ev) => match w.mouse {
            MouseMode::Drag(drag) => if s.geometry.contains_key(drag.module.0) {
                drag_effects(w.windows, s, drag, ev.position()).push(
                    EffectView::Send(
                        ClientMessage::UpdateWindowGeometry(
                            drag.module,
                            dragged(s.geometry[drag.module.0], drag, ev.position()),
                        ),
                    ),
                )
            } else {
                seq![]
            },
            _ => seq![],
        },
        WorkspaceMsg::MouseMove(ev) => match w.mouse {
            MouseMode::Drag(drag) => drag_effects(w.windows, s, drag, ev.position()),
            _ => seq![],
        },
        WorkspaceMsg::SelectTerminal(terminal) => match w.mouse {
            MouseMode::Connect(other, _) => match connection_between(terminal, other) {
                Some((input, output)) => seq![
                    EffectView::Send(ClientMessage::CreateConnection(input, output)),
                ],
                None => seq![],
            },
            _ => seq![],
        },
        WorkspaceMsg::ClearTerminal(TerminalId::Input(input)) => seq![
            EffectView::Send(ClientMessage::DeleteConnection(input)),
        ],
        WorkspaceMsg::ClearTerminal(TerminalId::Output(output)) => seq![
            EffectView::SendBatch(deletions(s.fed_by(output))),
        ],
        WorkspaceMsg::DeleteWindow(module) => seq![
            EffectView::Send(ClientMessage::DeleteModule(module)),
        ],
        WorkspaceMsg::UpdateModuleParams(module, params) => if can_set(s, msg) {
            seq![EffectView::Send(ClientMessage::UpdateModuleParams(module, params))]
        } else {
            seq![]
        },
        WorkspaceMsg::CreateModule(params, coords) => seq![
            EffectView::Send(
                ClientMessage::CreateModule(
                    params,
                    WindowGeometry { position: coords, z_index: w.next_z as usize },
                ),
            ),
        ],
        _ => seq![],
    }
}

/// The workspace after the message.
pub open spec fn next_workspace(
    w: WorkspaceView,
    s: StateView,
    msg: WorkspaceMsg,
) -> WorkspaceView {
    WorkspaceView {
        mouse: next_mouse(w.mouse, s, msg),
        next_z: if raises(s, msg) {
            w.next_z + 1
        } else {
            w.next_z
        },
        ..w
    }
}

/// What comes of the message.
pub open spec fn outcome(w: WorkspaceView, s: StateView, msg: WorkspaceMsg) -> UpdateView {
    UpdateView {
        should_render: should_render(w.mouse, s, msg),
        effects: effects(w, s, msg),
    }
}

} // verus!
