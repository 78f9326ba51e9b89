//! What comes of everything that can happen in the workspace.

use vstd::prelude::*;

use crate::laws::{law_window_follows_the_pointer, moved, moves_acceptable};
use crate::message::{Drag, Effect, MouseEvent, MouseMode, Update, WorkspaceMsg};
use crate::order::{
    ascending_keys, key_order, lemma_ascending_keys, lemma_filter_keeps_order, lemma_filtered,
};
use crate::protocol::{
    ClientMessage, Coords, InputId, ModuleId, ModuleParams, OutputId, TerminalId,
};
use crate::state::{comes_from, State, StateView};
use crate::transition::{acceptable, deletions, next_state, next_workspace, WorkspaceView};
use crate::window::{Window, WindowEffect, WindowMsg, WindowUpdate};
use crate::workspace::Workspace;

verus! {

/// What is to be done, effect by effect.
proof fn lemma_effects_seen(update: Update)
    ensures
        update@.should_render == update.should_render,
        update@.effects.len() == update.effects@.len(),
        forall|i: int|
            0 <= i < update.effects@.len() ==> update@.effects[i] == (
            #[trigger] update.effects@[i])@,
{
}

/// Whether the workspace, the state and the page are all left as they are.
pub open spec fn nothing_done(
    w: WorkspaceView,
    w1: WorkspaceView,
    s: State,
    s1: State,
    update: Update,
) -> bool {
    &&& w1 == w
    &&& s1.modules@ == s.modules@
    &&& s1.geometry@ == s.geometry@
    &&& s1.indications@ == s.indications@
    &&& s1.connections@ == s.connections@
    &&& !update.should_render
    &&& update.effects@.len() == 0
}

/// Whether one layer is handed out, or none is, and nothing else of the workspace changes but what
/// the pointer is used for.
pub open spec fn only_pointer_and_layer(w: WorkspaceView, w1: WorkspaceView, layers: nat) -> bool {
    &&& w1.windows == w.windows
    &&& w1.state_seq == w.state_seq
    &&& w1.next_z == w.next_z + layers
}

/// Whether the state is left as it is, the places of windows apart.
pub open spec fn only_places(s: State, s1: State) -> bool {
    &&& s1.modules@ == s.modules@
    &&& s1.indications@ == s.indications@
    &&& s1.connections@ == s.connections@
}

/// Whether the state is left as it is, the connections apart.
pub open spec fn only_connections(s: State, s1: State) -> bool {
    &&& s1.modules@ == s.modules@
    &&& s1.indications@ == s.indications@
    &&& s1.geometry@ == s.geometry@
}

/// Whether the state is left as it is.
pub open spec fn same_state(s: State, s1: State) -> bool {
    only_places(s, s1) && s1.geometry@ == s.geometry@
}

/// Whether the window of a module stands further across and further down by the given numbers of
/// pixels, on the layer where it was, and no other window has moved.
pub open spec fn window_went(s: State, s1: State, id: usize, across: int, down: int) -> bool {
    &&& s1.geometry@.contains_key(id)
    &&& s1.geometry@[id].position.x == s.geometry@[id].position.x + across
    &&& s1.geometry@[id].position.y == s.geometry@[id].position.y + down
    &&& s1.geometry@[id].z_index == s.geometry@[id].z_index
    &&& forall|other: usize| other != id ==> (#[trigger] s1.geometry@.contains_key(other)
        <==> s.geometry@.contains_key(other))
    &&& forall|other: usize| #[trigger]
        s.geometry@.contains_key(other) && other != id ==> s1.geometry@[other]
            == s.geometry@[other]
}

/// Whether a window can go that far without leaving the numbers that coordinates can hold.
pub open spec fn room_for(s: State, drag: Drag, ev: MouseEvent) -> bool {
    let across = ev.page_x - drag.origin.x;
    let down = ev.page_y - drag.origin.y;
    &&& -0x8000_0000 <= across <= 0x7fff_ffff
    &&& -0x8000_0000 <= down <= 0x7fff_ffff
    &&& s.geometry@.contains_key(drag.module.0) ==> {
        let from = s.geometry@[drag.module.0].position;
        &&& -0x8000_0000 <= from.x + across <= 0x7fff_ffff
        &&& -0x8000_0000 <= from.y + down <= 0x7fff_ffff
    }
}

/// Every message is handled, but for one that would raise a window beyond the last layer, and one
/// that would drag a window beyond the numbers that coordinates can hold.
pub proof fn law_messages_are_handled(ws: Workspace, state: State, msg: WorkspaceMsg, yes: bool)
    requires
        call_ensures(Workspace::accepts, (&ws, &state, &msg), yes),
    ensures
        yes <==> match msg {
            WorkspaceMsg::DragStart(module, _) => state.geometry@.contains_key(module.0)
                ==> ws@.next_z < usize::MAX,
            WorkspaceMsg::CreateModule(_, _) => ws@.next_z < usize::MAX,
            WorkspaceMsg::MouseUp(ev) => ws@.mouse matches MouseMode::Drag(drag) ==> room_for(
                state,
                drag,
                ev,
            ),
            WorkspaceMsg::MouseMove(ev) => ws@.mouse matches MouseMode::Drag(drag) ==> room_for(
                state,
                drag,
                ev,
            ),
            _ => true,
        },
{
}

/// A message that is accepted can be handled.
pub proof fn law_accepted_messages_can_be_handled(
    ws: &mut Workspace,
    state: &mut State,
    msg: WorkspaceMsg,
)
    requires
        call_ensures(Workspace::accepts, (&*ws, &*state, &msg), true),
    ensures
        call_requires(Workspace::update, (ws, state, msg)),
{
}

/// Taking hold of a window by its title begins to drag it from where the pointer is, and puts it
/// on the next layer. It does not move yet, and no other window is touched. A window without a
/// place cannot be taken hold of.
pub proof fn law_taking_hold(
    ws: &mut Workspace,
    state: &mut State,
    module: ModuleId,
    ev: MouseEvent,
    update: Update,
)
    requires
        call_ensures(Workspace::update, (ws, state, WorkspaceMsg::DragStart(module, ev)), update),
        ws@.next_z < usize::MAX,
    ensures
        !old(state).geometry@.contains_key(module.0) ==> nothing_done(
            old(ws)@,
            final(ws)@,
            *old(state),
            *final(state),
            update,
        ),
        old(state).geometry@.contains_key(module.0) ==> {
            let before = old(state).geometry@;
            let after = final(state).geometry@;
            &&& final(ws)@.mouse matches MouseMode::Drag(drag)
            &&& drag.module == module
            &&& drag.origin.x == ev.page_x
            &&& drag.origin.y == ev.page_y
            &&& only_pointer_and_layer(old(ws)@, final(ws)@, 1)
            &&& only_places(*old(state), *final(state))
            &&& after.dom() == before.dom()
            &&& after[module.0].position == before[module.0].position
            &&& after[module.0].z_index == old(ws)@.next_z
            &&& after.remove(module.0) == before.remove(module.0)
            &&& update.should_render
            &&& update.effects@.len() == 0
        },
{
    lemma_effects_seen(update);
    assert(final(state)@.geometry.remove(module.0) =~= old(state)@.geometry.remove(module.0));
    assert(final(state)@.geometry.dom() =~= old(state)@.geometry.dom());
}

/// The right button opens the menu at the pointer, or gives up the connection being drawn. Any
/// other button closes the menu. The state is left alone, and so is a window being dragged.
pub proof fn law_pressing(
    ws: &mut Workspace,
    state: &mut State,
    ev: MouseEvent,
    update: Update,
)
    requires
        call_ensures(Workspace::update, (ws, state, WorkspaceMsg::MouseDown(ev)), update),
    ensures
        same_state(*old(state), *final(state)),
        only_pointer_and_layer(old(ws)@, final(ws)@, 0),
        (ev.buttons / 2) % 2 == 1 ==> {
            &&& match old(ws)@.mouse {
                MouseMode::Connect(_, _) => final(ws)@.mouse == MouseMode::Normal,
                MouseMode::Drag(_) => final(ws)@.mouse == old(ws)@.mouse,
                _ => final(ws)@.mouse matches MouseMode::ContextMenu(at) && at.x == ev.page_x
                    && at.y == ev.page_y,
            }
            &&& update.should_render
            &&& update.effects@ == seq![Effect::PreventDefault, Effect::StopPropagation]
        },
        (ev.buttons / 2) % 2 == 0 ==> {
            &&& final(ws)@.mouse == if old(ws)@.mouse is ContextMenu {
                MouseMode::Normal
            } else {
                old(ws)@.mouse
            }
            &&& update.should_render <==> old(ws)@.mouse is ContextMenu
            &&& update.effects@.len() == 0
        },
{
    let buttons = ev.buttons;
    assert((buttons & 2 != 0) == ((buttons / 2) % 2 == 1)) by (bit_vector);
    lemma_effects_seen(update);
    assert(update.effects@.len() == 2 ==> update.effects@ =~= seq![
        update.effects@[0],
        update.effects@[1],
    ]);
}

/// A window that is being dragged goes as far as the pointer has gone since it was last heard of,
/// across and down, in the state and on the page. Everything else stays where it is.
pub proof fn law_moving_while_dragging(
    ws: &mut Workspace,
    state: &mut State,
    drag: Drag,
    ev: MouseEvent,
    update: Update,
)
    requires
        call_ensures(Workspace::update, (ws, state, WorkspaceMsg::MouseMove(ev)), update),
        ws@.mouse == MouseMode::Drag(drag),
        room_for(*state, drag, ev),
    ensures
        final(ws)@.mouse matches MouseMode::Drag(on) && on.module == drag.module && on.origin.x
            == ev.page_x && on.origin.y == ev.page_y,
        only_pointer_and_layer(old(ws)@, final(ws)@, 0),
        only_places(*old(state), *final(state)),
        update.should_render <==> old(state).geometry@.contains_key(drag.module.0),
        !old(state).geometry@.contains_key(drag.module.0) ==> final(state).geometry@ == old(
            state,
        ).geometry@ && update.effects@.len() == 0,
        old(state).geometry@.contains_key(drag.module.0) ==> {
            let to = final(state).geometry@[drag.module.0].position;
            &&& window_went(
                *old(state),
                *final(state),
                drag.module.0,
                ev.page_x - drag.origin.x,
                ev.page_y - drag.origin.y,
            )
            &&& update.effects@ == if old(ws)@.windows.contains_key(drag.module.0) {
                seq![Effect::MoveWindow(drag.module, to)]
            } else {
                seq![]
            }
        },
{
    lemma_effects_seen(update);
    if update.effects@.len() == 1 {
        assert(update.effects@ =~= seq![update.effects@[0]]);
    } else {
        assert(update.effects@ =~= Seq::empty());
    }
    assert(!old(state)@.geometry.contains_key(drag.module.0) ==> final(state)@ == old(state)@);
}

/// Letting go of a window leaves it as far on as the pointer has gone, across and down, in the
/// state and on the page, and tells the mixer that it stands there. Everything else stays where it
/// is.
pub proof fn law_letting_go(
    ws: &mut Workspace,
    state: &mut State,
    drag: Drag,
    ev: MouseEvent,
    update: Update,
)
    requires
        call_ensures(Workspace::update, (ws, state, WorkspaceMsg::MouseUp(ev)), update),
        ws@.mouse == MouseMode::Drag(drag),
        room_for(*state, drag, ev),
    ensures
        final(ws)@.mouse == MouseMode::Normal,
        only_pointer_and_layer(old(ws)@, final(ws)@, 0),
        only_places(*old(state), *final(state)),
        update.should_render <==> old(state).geometry@.contains_key(drag.module.0),
        !old(state).geometry@.contains_key(drag.module.0) ==> final(state).geometry@ == old(
            state,
        ).geometry@ && update.effects@.len() == 0,
        old(state).geometry@.contains_key(drag.module.0) ==> {
            let there = final(state).geometry@[drag.module.0];
            let told = Effect::Send(ClientMessage::UpdateWindowGeometry(drag.module, there));
            &&& window_went(
                *old(state),
                *final(state),
                drag.module.0,
                ev.page_x - drag.origin.x,
                ev.page_y - drag.origin.y,
            )
            &&& update.effects@ == if old(ws)@.windows.contains_key(drag.module.0) {
                seq![Effect::MoveWindow(drag.module, there.position), told]
            } else {
                seq![told]
            }
        },
{
    lemma_effects_seen(update);
    if update.effects@.len() == 1 {
        assert(update.effects@ =~= seq![update.effects@[0]]);
    } else if update.effects@.len() == 2 {
        assert(update.effects@ =~= seq![update.effects@[0], update.effects@[1]]);
    }
    assert(!old(state)@.geometry.contains_key(drag.module.0) ==> final(state)@ == old(state)@);
}

/// The line of a connection that is being drawn follows the pointer, wherever it was before.
pub proof fn law_moving_while_connecting(
    ws: &mut Workspace,
    state: &mut State,
    terminal: TerminalId,
    before: Option<Coords>,
    ev: MouseEvent,
    update: Update,
)
    requires
        call_ensures(Workspace::update, (ws, state, WorkspaceMsg::MouseMove(ev)), update),
        ws@.mouse == MouseMode::Connect(terminal, before),
    ensures
        final(ws)@.mouse matches MouseMode::Connect(from, Some(to)) && from == terminal && to.x
            == ev.page_x && to.y == ev.page_y,
        only_pointer_and_layer(old(ws)@, final(ws)@, 0),
        same_state(*old(state), *final(state)),
        update.should_render,
        update.effects@.len() == 0,
{
    lemma_effects_seen(update);
}

/// While nothing is dragged or connected, moving the pointer does nothing. While nothing is
/// dragged, letting go of a button does nothing.
pub proof fn law_idle_pointer(
    ws: &mut Workspace,
    state: &mut State,
    msg: WorkspaceMsg,
    update: Update,
)
    requires
        call_ensures(Workspace::update, (ws, state, msg), update),
        (msg is MouseMove && (ws@.mouse is Normal || ws@.mouse is ContextMenu)) || (msg is MouseUp
            && !(ws@.mouse is Drag)),
    ensures
        nothing_done(old(ws)@, final(ws)@, *old(state), *final(state), update),
{
    lemma_effects_seen(update);
}

/// Selecting a terminal begins a connection at it, unless one is being drawn already. While a
/// window is dragged, it does nothing.
pub proof fn law_beginning_a_connection(
    ws: &mut Workspace,
    state: &mut State,
    terminal: TerminalId,
    update: Update,
)
    requires
        call_ensures(
            Workspace::update,
            (ws, state, WorkspaceMsg::SelectTerminal(terminal)),
            update,
        ),
        !(ws@.mouse is Connect),
    ensures
        old(ws)@.mouse is Drag ==> nothing_done(
            old(ws)@,
            final(ws)@,
            *old(state),
            *final(state),
            update,
        ),
        !(old(ws)@.mouse is Drag) ==> {
            &&& final(ws)@.mouse == MouseMode::Connect(terminal, None)
            &&& only_pointer_and_layer(old(ws)@, final(ws)@, 0)
            &&& same_state(*old(state), *final(state))
            &&& !update.should_render
            &&& update.effects@.len() == 0
        },
{
    lemma_effects_seen(update);
}

/// Selecting an input once a connection has been begun at an output, or the other way round, makes
/// the output feed the input, here and in the mixer, and ends the drawing. Every other input is
/// fed as it was.
pub proof fn law_connecting(
    ws: &mut Workspace,
    state: &mut State,
    begun: TerminalId,
    to: Option<Coords>,
    terminal: TerminalId,
    module: usize,
    index: usize,
    output: OutputId,
    update: Update,
)
    requires
        call_ensures(
            Workspace::update,
            (ws, state, WorkspaceMsg::SelectTerminal(terminal)),
            update,
        ),
        ws@.mouse == MouseMode::Connect(begun, to),
        ({
            let input = TerminalId::Input(InputId(ModuleId(module), index));
            let output = TerminalId::Output(output);
            (begun == input && terminal == output) || (begun == output && terminal == input)
        }),
    ensures
        final(state).connections@ == old(state).connections@.insert((module, index), output),
        only_connections(*old(state), *final(state)),
        final(ws)@.mouse == MouseMode::Normal,
        only_pointer_and_layer(old(ws)@, final(ws)@, 0),
        update.should_render,
        update.effects@ == seq![
            Effect::Send(
                ClientMessage::CreateConnection(InputId(ModuleId(module), index), output),
            ),
        ],
{
    lemma_effects_seen(update);
    assert(update.effects@ =~= seq![update.effects@[0]]);
}

/// Selecting a second terminal of the same side does nothing: the connection is still being drawn.
pub proof fn law_refusing_to_connect(
    ws: &mut Workspace,
    state: &mut State,
    begun: TerminalId,
    to: Option<Coords>,
    terminal: TerminalId,
    update: Update,
)
    requires
        call_ensures(
            Workspace::update,
            (ws, state, WorkspaceMsg::SelectTerminal(terminal)),
            update,
        ),
        ws@.mouse == MouseMode::Connect(begun, to),
        (begun is Input && terminal is Input) || (begun is Output && terminal is Output),
    ensures
        nothing_done(old(ws)@, final(ws)@, *old(state), *final(state), update),
{
    lemma_effects_seen(update);
}

/// Clearing an input takes out what feeds it, here and in the mixer, and leaves every other
/// connection.
pub proof fn law_clearing_an_input(
    ws: &mut Workspace,
    state: &mut State,
    module: usize,
    index: usize,
    update: Update,
)
    requires
        call_ensures(
            Workspace::update,
            (
                ws,
                state,
                WorkspaceMsg::ClearTerminal(TerminalId::Input(InputId(ModuleId(module), index))),
            ),
            update,
        ),
    ensures
        final(state).connections@ == old(state).connections@.remove((module, index)),
        only_connections(*old(state), *final(state)),
        final(ws)@ == old(ws)@,
        update.should_render,
        update.effects@ == seq![
            Effect::Send(ClientMessage::DeleteConnection(InputId(ModuleId(module), index))),
        ],
{
    lemma_effects_seen(update);
    assert(update.effects@ =~= seq![update.effects@[0]]);
}

/// Whether the messages take out the connection of each of the inputs that the output feeds, each
/// once, by the numbers of their modules and then by their indices, and of no others.
pub open spec fn takes_out_all_fed(
    messages: Seq<ClientMessage>,
    connections: Map<(usize, usize), OutputId>,
    output: OutputId,
) -> bool {
    &&& forall|i: int|
        0 <= i < messages.len() ==> {
            &&& (#[trigger] messages[i]) matches ClientMessage::DeleteConnection(input)
            &&& connections.contains_key((input.0.0, input.1))
            &&& connections[(input.0.0, input.1)] == output
        }
    &&& forall|i: int, j: int|
        0 <= i < j < messages.len() ==> {
            let a = (#[trigger] messages[i])->DeleteConnection_0;
            let b = (#[trigger] messages[j])->DeleteConnection_0;
            a.0.0 < b.0.0 || (a.0.0 == b.0.0 && a.1 < b.1)
        }
    &&& forall|key: (usize, usize)| #[trigger]
        connections.contains_key(key) && connections[key] == output ==> messages.contains(
            ClientMessage::DeleteConnection(InputId(ModuleId(key.0), key.1)),
        )
}

/// Whether just the connections that come from the output are gone.
pub open spec fn fed_are_gone(
    before: Map<(usize, usize), OutputId>,
    after: Map<(usize, usize), OutputId>,
    output: OutputId,
) -> bool {
    &&& forall|key: (usize, usize)| #[trigger]
        after.contains_key(key) <==> before.contains_key(key) && before[key] != output
    &&& forall|key: (usize, usize)| #[trigger] after.contains_key(key) ==> after[key] == before[key]
}

/// The inputs that an output feeds are named in the order of their keys, each once, and no others
/// are named.
proof fn lemma_fed_by_in_order(s: StateView, output: OutputId)
    requires
        s.connections.dom().finite(),
    ensures
        takes_out_all_fed(deletions(s.fed_by(output)), s.connections, output),
{
    let keys = ascending_keys(s.connections.dom());
    let pred = comes_from(s.connections, output);
    let kept = keys.filter(pred);
    let messages = deletions(s.fed_by(output));
    lemma_ascending_keys(s.connections.dom());
    lemma_filtered(keys, pred);
    lemma_filter_keeps_order(keys, pred, key_order());
    assert(messages.len() == kept.len());
    assert forall|i: int| 0 <= i < messages.len() implies {
        &&& (#[trigger] messages[i]) matches ClientMessage::DeleteConnection(input)
        &&& s.connections.contains_key((input.0.0, input.1))
        &&& s.connections[(input.0.0, input.1)] == output
    } by {
        assert(kept.contains(kept[i]));
        assert(s.connections.dom().contains(kept[i]));
    }
    assert forall|i: int, j: int| 0 <= i < j < messages.len() implies {
        let a = (#[trigger] messages[i])->DeleteConnection_0;
        let b = (#[trigger] messages[j])->DeleteConnection_0;
        a.0.0 < b.0.0 || (a.0.0 == b.0.0 && a.1 < b.1)
    } by {
        assert(key_order()(kept[i], kept[j]));
    }
    assert forall|key: (usize, usize)| #[trigger]
        s.connections.contains_key(key) && s.connections[key] == output implies messages.contains(
        ClientMessage::DeleteConnection(InputId(ModuleId(key.0), key.1)),
    ) by {
        assert(s.connections.dom().contains(key));
        assert(kept.contains(key));
        let i = choose|i: int| 0 <= i < kept.len() && kept[i] == key;
        assert(messages[i] == ClientMessage::DeleteConnection(InputId(ModuleId(key.0), key.1)));
    }
}

/// Clearing an output takes out every connection from it and no other, and tells the mixer to take
/// out each of them, all at once.
pub proof fn law_clearing_an_output(
    ws: &mut Workspace,
    state: &mut State,
    output: OutputId,
    update: Update,
)
    requires
        call_ensures(
            Workspace::update,
            (ws, state, WorkspaceMsg::ClearTerminal(TerminalId::Output(output))),
            update,
        ),
    ensures
        fed_are_gone(old(state).connections@, final(state).connections@, output),
        only_connections(*old(state), *final(state)),
        final(ws)@ == old(ws)@,
        update.should_render,
        update.effects@.len() == 1,
        update.effects@[0] matches Effect::SendBatch(messages) && takes_out_all_fed(
            messages@,
            old(state).connections@,
            output,
        ),
{
    lemma_effects_seen(update);
    assert(old(state).connections@.dom().finite());
    lemma_fed_by_in_order(old(state)@, output);
    assert(update@.effects[0] == update.effects@[0]@);
}

/// Taking out what an output feeds hands back the inputs that it fed, in the order of their keys,
/// and leaves every other connection.
pub proof fn law_disconnecting_an_output(
    state: &mut State,
    output: OutputId,
    inputs: Vec<InputId>,
)
    requires
        call_ensures(State::disconnect_output, (state, output), inputs),
    ensures
        fed_are_gone(old(state).connections@, final(state).connections@, output),
        only_connections(*old(state), *final(state)),
        takes_out_all_fed(
            inputs@.map_values(|input: InputId| ClientMessage::DeleteConnection(input)),
            old(state).connections@,
            output,
        ),
{
    assert(old(state).connections@.dom().finite());
    lemma_fed_by_in_order(old(state)@, output);
    assert(deletions(inputs@) =~= inputs@.map_values(
        |input: InputId| ClientMessage::DeleteConnection(input),
    ));
}

/// Whether the state has lost a module, its place, and every connection to or from it, and nothing
/// else.
pub open spec fn module_is_gone(s: State, s1: State, module: usize) -> bool {
    &&& s1.modules@ == s.modules@.remove(module)
    &&& s1.geometry@ == s.geometry@.remove(module)
    &&& s1.indications@ == s.indications@
    &&& forall|key: (usize, usize)| #[trigger]
        s1.connections@.contains_key(key) <==> s.connections@.contains_key(key) && key.0 != module
            && s.connections@[key].0.0 != module
    &&& forall|key: (usize, usize)| #[trigger]
        s1.connections@.contains_key(key) ==> s1.connections@[key] == s.connections@[key]
}

/// Deleting a window takes out its module and every connection to or from it, here and in the
/// mixer. What the pointer is used for stays.
pub proof fn law_deleting_a_window(
    ws: &mut Workspace,
    state: &mut State,
    module: ModuleId,
    update: Update,
)
    requires
        call_ensures(Workspace::update, (ws, state, WorkspaceMsg::DeleteWindow(module)), update),
    ensures
        module_is_gone(*old(state), *final(state), module.0),
        final(ws)@ == old(ws)@,
        update.should_render,
        update.effects@ == seq![Effect::Send(ClientMessage::DeleteModule(module))],
{
    lemma_effects_seen(update);
    assert(update.effects@ =~= seq![update.effects@[0]]);
}

/// Taking out a module takes out its place and every connection to or from it, and nothing else.
pub proof fn law_deleting_a_module(state: &mut State, module: ModuleId)
    requires
        call_ensures(State::delete_module, (state, module), ()),
    ensures
        module_is_gone(*old(state), *final(state), module.0),
{
}

/// Whether both are settings for modules of one kind.
pub open spec fn of_one_kind(a: ModuleParams, b: ModuleParams) -> bool {
    ||| a is SineGenerator && b is SineGenerator
    ||| a is OutputDevice && b is OutputDevice
    ||| a is Mixer2ch && b is Mixer2ch
    ||| a is FmSine && b is FmSine
}

/// New settings for a module that is there and of their kind take the place of its old ones, here
/// and in the mixer. Any others are turned down, and nothing is done.
pub proof fn law_setting_a_module(
    ws: &mut Workspace,
    state: &mut State,
    module: ModuleId,
    params: ModuleParams,
    update: Update,
)
    requires
        call_ensures(
            Workspace::update,
            (ws, state, WorkspaceMsg::UpdateModuleParams(module, params)),
            update,
        ),
    ensures
        if old(state).modules@.contains_key(module.0) && of_one_kind(
            old(state).modules@[module.0],
            params,
        ) {
            &&& final(state).modules@ == old(state).modules@.insert(module.0, params)
            &&& final(state).geometry@ == old(state).geometry@
            &&& final(state).indications@ == old(state).indications@
            &&& final(state).connections@ == old(state).connections@
            &&& final(ws)@ == old(ws)@
            &&& update.should_render
            &&& update.effects@ == seq![
                Effect::Send(ClientMessage::UpdateModuleParams(module, params)),
            ]
        } else {
            nothing_done(old(ws)@, final(ws)@, *old(state), *final(state), update)
        },
{
    lemma_effects_seen(update);
    if update.effects@.len() == 1 {
        assert(update.effects@ =~= seq![update.effects@[0]]);
    }
}

/// Adding a module asks the mixer for it, at the given point and on the next layer, and leaves the
/// pointer free. Nothing is shown of the module before the mixer has made it.
pub proof fn law_adding_a_module(
    ws: &mut Workspace,
    state: &mut State,
    params: ModuleParams,
    at: Coords,
    update: Update,
)
    requires
        call_ensures(
            Workspace::update,
            (ws, state, WorkspaceMsg::CreateModule(params, at)),
            update,
        ),
        ws@.next_z < usize::MAX,
    ensures
        final(ws)@.mouse == MouseMode::Normal,
        only_pointer_and_layer(old(ws)@, final(ws)@, 1),
        same_state(*old(state), *final(state)),
        !update.should_render,
        update.effects@.len() == 1,
        update.effects@[0] matches Effect::Send(ClientMessage::CreateModule(kind, place)) && kind
            == params && place.position == at && place.z_index == old(ws)@.next_z,
{
    lemma_effects_seen(update);
}

/// What a window does about what happens in it: it takes hold of itself for dragging, clears a
/// terminal that the right button is pressed on and selects it with any other, whichever side the
/// terminal is on, and passes on that it is to be deleted or set. It sends the workspace one
/// message, for its own module, and stays as it is.
pub proof fn law_windows_pass_on(window: &mut Window, msg: WindowMsg, update: WindowUpdate)
    requires
        call_ensures(Window::update, (window, msg), update),
    ensures
        *final(window) == *old(window),
        !update.should_render,
        match msg {
            WindowMsg::DragStart(ev) => update.effects@ == seq![
                WindowEffect::StopPropagation,
                WindowEffect::Send(WorkspaceMsg::DragStart(old(window)@.id, ev)),
            ],
            WindowMsg::TerminalMouseDown(ev, terminal) => {
                &&& (ev.buttons / 2) % 2 == 1 ==> update.effects@ == seq![
                    WindowEffect::Send(WorkspaceMsg::ClearTerminal(terminal)),
                    WindowEffect::StopPropagation,
                ]
                &&& (ev.buttons / 2) % 2 == 0 ==> update.effects@ == seq![
                    WindowEffect::Send(WorkspaceMsg::SelectTerminal(terminal)),
                    WindowEffect::StopPropagation,
                ]
            },
            WindowMsg::Delete => update.effects@ == seq![
                WindowEffect::Send(WorkspaceMsg::DeleteWindow(old(window)@.id)),
            ],
            WindowMsg::UpdateParams(params) => update.effects@ == seq![
                WindowEffect::Send(WorkspaceMsg::UpdateModuleParams(old(window)@.id, params)),
            ],
        },
{
    if let WindowMsg::TerminalMouseDown(ev, _) = msg {
        let buttons = ev.buttons;
        assert((buttons & 2 != 0) == ((buttons / 2) % 2 == 1)) by (bit_vector);
    }
}

/// A terminal that the right button is pressed on loses its connections, once the workspace has
/// been given what the window sends: an input is fed by nothing, an output feeds nothing. Every
/// other connection stays.
pub proof fn law_right_click_clears(
    window: &mut Window,
    ws: &mut Workspace,
    state: &mut State,
    ev: MouseEvent,
    terminal: TerminalId,
    sent: WindowUpdate,
    msg: WorkspaceMsg,
    update: Update,
)
    requires
        (ev.buttons / 2) % 2 == 1,
        call_ensures(Window::update, (window, WindowMsg::TerminalMouseDown(ev, terminal)), sent),
        sent.effects@.contains(WindowEffect::Send(msg)),
        call_ensures(Workspace::update, (ws, state, msg), update),
    ensures
        only_connections(*old(state), *final(state)),
        forall|key: (usize, usize)| #[trigger]
            final(state).connections@.contains_key(key) <==> {
                &&& old(state).connections@.contains_key(key)
                &&& match terminal {
                    TerminalId::Input(input) => key.0 != input.0.0 || key.1 != input.1,
                    TerminalId::Output(output) => old(state).connections@[key] != output,
                }
            },
        forall|key: (usize, usize)| #[trigger]
            final(state).connections@.contains_key(key) ==> final(state).connections@[key] == old(
                state,
            ).connections@[key],
{
    let buttons = ev.buttons;
    assert((buttons & 2 != 0) == ((buttons / 2) % 2 == 1)) by (bit_vector);
    let i = choose|i: int|
        0 <= i < sent.effects@.len() && sent.effects@[i] == WindowEffect::Send(msg);
    assert(sent.effects@.len() == 2);
    assert(msg == WorkspaceMsg::ClearTerminal(terminal));
}

/// However the pointer moves while a connection is drawn, its line ends where the pointer is, and
/// begins at the terminal that it was begun at.
pub proof fn law_line_follows_the_pointer(
    w: WorkspaceView,
    s: StateView,
    terminal: TerminalId,
    to: Option<Coords>,
    moves: Seq<MouseEvent>,
)
    requires
        w.mouse == MouseMode::Connect(terminal, to),
        moves.len() > 0,
    ensures
        ({
            let (w1, s1) = moved(w, s, moves);
            let end = Coords { x: moves.last().page_x, y: moves.last().page_y };
            &&& w1 == (WorkspaceView { mouse: MouseMode::Connect(terminal, Some(end)), ..w })
            &&& s1 == s
        }),
    decreases moves.len(),
{
    let rest = moves.drop_last();
    if rest.len() == 0 {
        assert(moved(w, s, rest) == (w, s));
    } else {
        law_line_follows_the_pointer(w, s, terminal, to, rest);
    }
}

/// A window that is taken hold of, dragged about and let go of stands as far from where it stood
/// as the pointer is from where it took hold, on the layer that was next.
pub proof fn law_a_whole_drag(
    w: WorkspaceView,
    s: StateView,
    module: ModuleId,
    from: MouseEvent,
    moves: Seq<MouseEvent>,
    to: MouseEvent,
)
    requires
        s.geometry.contains_key(module.0),
        acceptable(w, s, WorkspaceMsg::DragStart(module, from)),
        ({
            let hold = WorkspaceMsg::DragStart(module, from);
            let (w0, s0) = (next_workspace(w, s, hold), next_state(w, s, hold));
            let (w1, s1) = moved(w0, s0, moves);
            &&& moves_acceptable(w0, s0, moves)
            &&& acceptable(w1, s1, WorkspaceMsg::MouseUp(to))
        }),
    ensures
        ({
            let hold = WorkspaceMsg::DragStart(module, from);
            let (w1, s1) = moved(next_workspace(w, s, hold), next_state(w, s, hold), moves);
            let up = WorkspaceMsg::MouseUp(to);
            let there = next_state(w1, s1, up).geometry;
            &&& there.contains_key(module.0)
            &&& there[module.0].position.x == s.geometry[module.0].position.x + to.page_x
                - from.page_x
            &&& there[module.0].position.y == s.geometry[module.0].position.y + to.page_y
                - from.page_y
            &&& there[module.0].z_index == w.next_z
            &&& there.remove(module.0) == s.geometry.remove(module.0)
            &&& next_workspace(w1, s1, up).mouse == MouseMode::Normal
        }),
{
    let hold = WorkspaceMsg::DragStart(module, from);
    let (w0, s0) = (next_workspace(w, s, hold), next_state(w, s, hold));
    let (w1, s1) = moved(w0, s0, moves);
    let drag = w0.mouse->Drag_0;
    assert(s0.geometry.remove(module.0) =~= s.geometry.remove(module.0));
    if moves.len() > 0 {
        law_window_follows_the_pointer(w0, s0, drag, moves);
    } else {
        assert((w1, s1) == (w0, s0));
    }
    let there = next_state(w1, s1, WorkspaceMsg::MouseUp(to)).geometry;
    assert(there.remove(module.0) =~= s1.geometry.remove(module.0));
}

} // verus!
