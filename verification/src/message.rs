//! What happens in the workspace, and what is to be done about it.

use vstd::prelude::*;

use crate::protocol::{ClientMessage, Coords, ModuleId, ModuleParams, TerminalId};

verus! {

/// What the pointer is being used for.
#[derive(Debug, Clone, Copy, PartialEq, Eq, Structural)]
pub enum MouseMode {
    Normal,
    /// A window is being dragged.
    Drag(Drag),
    /// A connection is being drawn from a terminal, so far to the given point.
    Connect(TerminalId, Option<Coords>),
    /// The menu of modules is open at the given point.
    ContextMenu(Coords),
}

/// The window being dragged, and where the pointer last was.
#[derive(Debug, Clone, Copy, PartialEq, Eq, Structural)]
pub struct Drag {
    pub module: ModuleId,
    pub origin: Coords,
}

/// Where the pointer is on the page, and which of its buttons are down.
#[derive(Debug, Clone, Copy, PartialEq, Eq, Structural)]
pub struct MouseEvent {
    pub page_x: i32,
    pub page_y: i32,
    pub buttons: u16,
}

impl MouseEvent {
    pub open spec fn spec_position(self) -> Coords {
        Coords { x: self.page_x, y: self.page_y }
    }

    /// The point of the page that the pointer is at.
    #[verifier::when_used_as_spec(spec_position)]
    pub fn position(self) -> (position: Coords)
        ensures
            position == self.position(),
    {
        Coords { x: self.page_x, y: self.page_y }
    }

    pub open spec fn spec_right_button(self) -> bool {
        self.buttons & 2 != 0
    }

    /// Whether the right button is down.
    #[verifier::when_used_as_spec(spec_right_button)]
    pub fn right_button(self) -> (down: bool)
        ensures
            down == self.right_button(),
    {
        self.buttons & 2 != 0
    }
}

/// What happens in the workspace.
#[derive(Debug, PartialEq, Eq)]
pub enum WorkspaceMsg {
    DragStart(ModuleId, MouseEvent),
    MouseDown(MouseEvent),
    MouseUp(MouseEvent),
    MouseMove(MouseEvent),
    SelectTerminal(TerminalId),
    ClearTerminal(TerminalId),
    DeleteWindow(ModuleId),
    UpdateModuleParams(ModuleId, ModuleParams),
    CreateModule(ModuleParams, Coords),
}

/// Something to be done outside of the workspace.
#[derive(Debug, PartialEq, Eq)]
pub enum Effect {
    /// Send the mixer a message.
    Send(ClientMessage),
    /// Send the mixer messages all at once.
    SendBatch(Vec<ClientMessage>),
    /// Move a window's element on the page.
    MoveWindow(ModuleId, Coords),
    /// Keep the browser from handling the event.
    PreventDefault,
    /// Keep the elements around from handling the event.
    StopPropagation,
}

/// What an effect does.
#[verifier::ext_equal]
pub enum EffectView {
    Send(ClientMessage),
    SendBatch(Seq<ClientMessage>),
    MoveWindow(ModuleId, Coords),
    PreventDefault,
    StopPropagation,
}

impl View for Effect {
    type V = EffectView;

    open spec fn view(&self) -> EffectView {
        match *self {
            Effect::Send(message) => EffectView::Send(message),
            Effect::SendBatch(messages) => EffectView::SendBatch(messages@),
            Effect::MoveWindow(module, position) => EffectView::MoveWindow(module, position),
            Effect::PreventDefault => EffectView::PreventDefault,
            Effect::StopPropagation => EffectView::StopPropagation,
        }
    }
}

/// What comes of a message.
#[derive(Debug, PartialEq, Eq)]
pub struct Update {
    /// Whether the workspace has to be shown anew.
    pub should_render: bool,
    /// What is to be done, in this order.
    pub effects: Vec<Effect>,
}

/// What an `Update` asks for.
#[verifier::ext_equal]
pub struct UpdateView {
    pub should_render: bool,
    pub effects: Seq<EffectView>,
}

impl View for Update {
    type V = UpdateView;

    open spec fn view(&self) -> UpdateView {
        UpdateView {
            should_render: self.should_render,
            effects: self.effects@.map_values(|effect: Effect| effect@),
        }
    }
}

/// An event tells where the pointer is, across and down, and whether the right button is among
/// those that are down: it is the one that counts two.
pub proof fn law_events_tell_of_the_pointer(ev: MouseEvent, position: Coords, right: bool)
    requires
        call_ensures(MouseEvent::position, (ev,), position),
        call_ensures(MouseEvent::right_button, (ev,), right),
    ensures
        position.x == ev.page_x,
        position.y == ev.page_y,
        right <==> (ev.buttons / 2) % 2 == 1,
{
    let buttons = ev.buttons;
    assert((buttons & 2 != 0) == ((buttons / 2) % 2 == 1)) by (bit_vector);
}

} // verus!
