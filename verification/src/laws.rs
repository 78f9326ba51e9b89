//! What holds of the workspace as a whole.

use vstd::prelude::*;

pub mod pointer;
pub mod shown;

use crate::message::{Drag, EffectView, MouseEvent, MouseMode, WorkspaceMsg};
use crate::order::{
    ascending_ids, ascending_keys, id_order, key_order, lemma_ascending_ids,
    lemma_ascending_keys, lemma_filtered,
};
use crate::protocol::{
    ClientMessage, Coords, InputId, ModuleId, ModuleParams, OutputId, TerminalId, WindowGeometry,
};
use crate::scene::{
    all_lines, connection_ends, connection_line, connection_lines, line_ends, showable,
    shown_windows, terminal_node, terminal_point, window_content, TerminalOffsetsView,
};
use crate::state::{comes_from, input_of_key, StateView};
use crate::transition::{
    acceptable, connection_between, deletions, dragged, effects, next_state, next_workspace,
    outcome, should_render, WorkspaceView,
};
use crate::window::{window_effects, WindowEffect, WindowMsg};
use crate::window_ref::WindowRefView;
use crate::workspace::{in_line, newly_opened};

verus! {

/// No message turns a module into one of another kind.
pub proof fn law_modules_keep_their_kind(
    w: WorkspaceView,
    s: StateView,
    msg: WorkspaceMsg,
    id: usize,
)
    requires
        s.modules.contains_key(id),
        next_state(w, s, msg).modules.contains_key(id),
    ensures
        s.modules[id].same_kind(next_state(w, s, msg).modules[id]),
{
}

/// No message makes up modules or places for windows, or touches what the mixer reports: all of
/// these come from the mixer alone.
pub proof fn law_nothing_is_made_up(w: WorkspaceView, s: StateView, msg: WorkspaceMsg)
    ensures
        next_state(w, s, msg).modules.dom().subset_of(s.modules.dom()),
        next_state(w, s, msg).geometry.dom().subset_of(s.geometry.dom()),
        next_state(w, s, msg).indications == s.indications,
{
}

/// A message after which nothing needs to be shown anew has left the state alone.
pub proof fn law_unrendered_state_is_unchanged(w: WorkspaceView, s: StateView, msg: WorkspaceMsg)
    requires
        !should_render(w.mouse, s, msg),
    ensures
        next_state(w, s, msg) == s,
{
}

/// Pressing a button of the mouse leaves the state alone.
pub proof fn law_mouse_down_keeps_the_state(w: WorkspaceView, s: StateView, ev: MouseEvent)
    ensures
        next_state(w, s, WorkspaceMsg::MouseDown(ev)) == s,
{
}

/// Two inputs, or two outputs, cannot be connected: selecting the second one does nothing at all.
pub proof fn law_terminals_of_one_side_do_not_connect(
    w: WorkspaceView,
    s: StateView,
    other: TerminalId,
    to: Option<Coords>,
    terminal: TerminalId,
)
    requires
        w.mouse == MouseMode::Connect(other, to),
        terminal is Input <==> other is Input,
    ensures
        next_workspace(w, s, WorkspaceMsg::SelectTerminal(terminal)) == w,
        next_state(w, s, WorkspaceMsg::SelectTerminal(terminal)) == s,
        outcome(w, s, WorkspaceMsg::SelectTerminal(terminal)).effects.len() == 0,
        !outcome(w, s, WorkspaceMsg::SelectTerminal(terminal)).should_render,
{
}

/// It does not matter from which end a connection is drawn.
pub proof fn law_connecting_is_symmetric(
    w: WorkspaceView,
    s: StateView,
    input: InputId,
    output: OutputId,
    to_from_input: Option<Coords>,
    to_from_output: Option<Coords>,
)
    ensures
        ({
            let from_input = WorkspaceView {
                mouse: MouseMode::Connect(TerminalId::Input(input), to_from_input),
                ..w
            };
            let from_output = WorkspaceView {
                mouse: MouseMode::Connect(TerminalId::Output(output), to_from_output),
                ..w
            };
            let at_output = WorkspaceMsg::SelectTerminal(TerminalId::Output(output));
            let at_input = WorkspaceMsg::SelectTerminal(TerminalId::Input(input));
            &&& next_workspace(from_input, s, at_output) == next_workspace(
                from_output,
                s,
                at_input,
            )
            &&& next_state(from_input, s, at_output) == next_state(from_output, s, at_input)
            &&& outcome(from_input, s, at_output) == outcome(from_output, s, at_input)
        }),
{
}

/// Drawing a connection from a terminal to one of the other side connects them: the input is then
/// fed by the output, whatever fed it before, and every other input is fed as it was.
pub proof fn law_connected_input_is_fed(
    w: WorkspaceView,
    s: StateView,
    terminal: TerminalId,
    other: TerminalId,
    to: Option<Coords>,
    input: InputId,
    output: OutputId,
)
    requires
        w.mouse == MouseMode::Connect(other, to),
        connection_between(terminal, other) == Some((input, output)),
    ensures
        ({
            let after = next_state(w, s, WorkspaceMsg::SelectTerminal(terminal)).connections;
            &&& after.contains_key(input.key()) && after[input.key()] == output
            &&& after.remove(input.key()) == s.connections.remove(input.key())
        }),
{
    assert(s.connections.insert(input.key(), output).remove(input.key())
        =~= s.connections.remove(input.key()));
}

/// Clearing an input undoes connecting it, if nothing fed it before.
pub proof fn law_clearing_undoes_connecting(
    w: WorkspaceView,
    s: StateView,
    terminal: TerminalId,
    other: TerminalId,
    to: Option<Coords>,
    input: InputId,
    output: OutputId,
)
    requires
        w.mouse == MouseMode::Connect(other, to),
        connection_between(terminal, other) == Some((input, output)),
        !s.connections.contains_key(input.key()),
    ensures
        ({
            let select = WorkspaceMsg::SelectTerminal(terminal);
            let clear = WorkspaceMsg::ClearTerminal(TerminalId::Input(input));
            next_state(next_workspace(w, s, select), next_state(w, s, select), clear) == s
        }),
{
    assert(s.connections.insert(input.key(), output).remove(input.key()) =~= s.connections);
}

/// Clearing an output takes out all of its connections and no others.
pub proof fn law_cleared_output_feeds_nothing(w: WorkspaceView, s: StateView, output: OutputId)
    ensures
        ({
            let clear = WorkspaceMsg::ClearTerminal(TerminalId::Output(output));
            let after = next_state(w, s, clear).connections;
            &&& forall|key: (usize, usize)| #[trigger]
                after.contains_key(key) <==> s.connections.contains_key(key) && s.connections[key]
                    != output
            &&& forall|key: (usize, usize)| #[trigger]
                after.contains_key(key) ==> after[key] == s.connections[key]
        }),
{
}

/// The inputs that an output feeds are listed each once, and no others are.
pub proof fn law_fed_by_lists_each_input_once(s: StateView, output: OutputId)
    requires
        s.connections.dom().finite(),
    ensures
        s.fed_by(output).no_duplicates(),
        forall|input: InputId| #[trigger]
            s.fed_by(output).contains(input) <==> s.connections.contains_key(input.key())
                && s.connections[input.key()] == output,
{
    let keys = ascending_keys(s.connections.dom());
    let pred = comes_from(s.connections, output);
    let kept = keys.filter(pred);
    let inputs = s.fed_by(output);
    lemma_ascending_keys(s.connections.dom());
    lemma_filtered(keys, pred);
    assert(keys.no_duplicates()) by {
        assert forall|i: int, j: int|
            0 <= i < keys.len() && 0 <= j < keys.len() && i != j implies keys[i] != keys[j] by {
            if i < j {
                assert(key_order()(keys[i], keys[j]));
            } else {
                assert(key_order()(keys[j], keys[i]));
            }
        }
    }
    assert forall|input: InputId| #[trigger]
        inputs.contains(input) <==> s.connections.contains_key(input.key())
            && s.connections[input.key()] == output by {
        if inputs.contains(input) {
            let i = choose|i: int| 0 <= i < inputs.len() && inputs[i] == input;
            assert(kept[i] == input.key());
            assert(kept.contains(input.key()));
            assert(s.connections.dom().contains(input.key()));
        }
        if s.connections.contains_key(input.key()) && s.connections[input.key()] == output {
            assert(s.connections.dom().contains(input.key()));
            assert(kept.contains(input.key()));
            let i = choose|i: int| 0 <= i < kept.len() && kept[i] == input.key();
            assert(inputs[i] == input);
        }
    }
}

/// Deleting a module's window leaves no trace of the module: not itself, nor its window, nor a
/// connection to or from it. Everything else stays.
pub proof fn law_deleted_module_is_gone(w: WorkspaceView, s: StateView, module: ModuleId)
    ensures
        ({
            let after = next_state(w, s, WorkspaceMsg::DeleteWindow(module));
            &&& after.modules == s.modules.remove(module.0)
            &&& after.geometry == s.geometry.remove(module.0)
            &&& forall|key: (usize, usize)| #[trigger]
                after.connections.contains_key(key) <==> s.connections.contains_key(key)
                    && input_of_key(key).module_id() != module
                    && s.connections[key].module_id() != module
            &&& forall|key: (usize, usize)| #[trigger]
                after.connections.contains_key(key) ==> after.connections[key]
                    == s.connections[key]
        }),
{
}

/// The messages to the mixer among the given effects, in the order in which they are sent.
pub open spec fn told(effects: Seq<EffectView>) -> Seq<ClientMessage>
    decreases effects.len(),
{
    if effects.len() == 0 {
        seq![]
    } else {
        told(effects.drop_last()) + match effects.last() {
            EffectView::Send(message) => seq![message],
            EffectView::SendBatch(messages) => messages,
            _ => seq![],
        }
    }
}

/// The state of one who takes a message at its word. A module that is to be created is not there
/// yet: the mixer gives it its number.
pub open spec fn obeyed(s: StateView, message: ClientMessage) -> StateView {
    match message {
        ClientMessage::CreateModule(_, _) => s,
        ClientMessage::UpdateModuleParams(module, params) => StateView {
            modules: s.modules.insert(module.0, params),
            ..s
        },
        ClientMessage::UpdateWindowGeometry(module, geometry) => StateView {
            geometry: s.geometry.insert(module.0, geometry),
            ..s
        },
        ClientMessage::DeleteModule(module) => s.without_module(module),
        ClientMessage::CreateConnection(input, output) => StateView {
            connections: s.connections.insert(input.key(), output),
            ..s
        },
        ClientMessage::DeleteConnection(input) => StateView {
            connections: s.connections.remove(input.key()),
            ..s
        },
    }
}

/// The state of one who takes messages at their word, one after the other.
pub open spec fn all_obeyed(s: StateView, messages: Seq<ClientMessage>) -> StateView
    decreases messages.len(),
{
    if messages.len() == 0 {
        s
    } else {
        obeyed(all_obeyed(s, messages.drop_last()), messages.last())
    }
}

/// Taking out connections one after the other takes out just these.
proof fn lemma_deletions_obeyed(s: StateView, inputs: Seq<InputId>)
    ensures
        ({
            let after = all_obeyed(s, deletions(inputs));
            &&& after == (StateView { connections: after.connections, ..s })
            &&& forall|key: (usize, usize)| #[trigger]
                after.connections.contains_key(key) <==> s.connections.contains_key(key)
                    && !inputs.contains(input_of_key(key))
            &&& forall|key: (usize, usize)| #[trigger]
                after.connections.contains_key(key) ==> after.connections[key]
                    == s.connections[key]
        }),
    decreases inputs.len(),
{
    if inputs.len() > 0 {
        let rest = inputs.drop_last();
        lemma_deletions_obeyed(s, rest);
        assert(deletions(inputs).drop_last() =~= deletions(rest));
        assert(deletions(inputs).last() == ClientMessage::DeleteConnection(inputs.last()));
        let after = all_obeyed(s, deletions(inputs)).connections;
        assert forall|key: (usize, usize)| #[trigger]
            after.contains_key(key) <==> s.connections.contains_key(key) && !inputs.contains(
                input_of_key(key),
            ) by {
            assert(inputs =~= rest.push(inputs.last()));
            assert(all_obeyed(s, deletions(rest)).connections.contains_key(key)
                <==> s.connections.contains_key(key) && !rest.contains(input_of_key(key)));
            if rest.contains(input_of_key(key)) {
                let i = choose|i: int| 0 <= i < rest.len() && rest[i] == input_of_key(key);
                assert(inputs[i] == input_of_key(key));
            }
            if inputs.last().key() == key {
                assert(inputs[inputs.len() - 1] == input_of_key(key));
            }
        }
    }
}

/// The messages of a single effect.
proof fn lemma_told_one(effect: EffectView)
    ensures
        told(seq![effect]) == match effect {
            EffectView::Send(message) => seq![message],
            EffectView::SendBatch(messages) => messages,
            _ => seq![],
        },
{
    assert(seq![effect].drop_last() =~= Seq::empty());
    assert(told(Seq::<EffectView>::empty()) =~= Seq::empty());
    assert(told(seq![effect]) =~= match effect {
        EffectView::Send(message) => seq![message],
        EffectView::SendBatch(messages) => messages,
        _ => seq![],
    });
}

/// Taking a single message at its word.
proof fn lemma_one_obeyed(s: StateView, message: ClientMessage)
    ensures
        all_obeyed(s, seq![message]) == obeyed(s, message),
{
    assert(seq![message].drop_last() =~= Seq::empty());
    assert(all_obeyed(s, Seq::empty()) == s);
}

/// The mixer is told of every change: one who takes what is sent at its word ends up with the same
/// state. Only while a window is being dragged does its place change untold, until it is let go.
pub proof fn law_the_mixer_is_told(w: WorkspaceView, s: StateView, msg: WorkspaceMsg)
    requires
        s.connections.dom().finite(),
    ensures
        ({
            let here = next_state(w, s, msg);
            let there = all_obeyed(s, told(effects(w, s, msg)));
            if msg is DragStart || msg is MouseMove {
                there == s && here == (StateView { geometry: here.geometry, ..s })
            } else {
                there == here
            }
        }),
{
    let sent = effects(w, s, msg);
    assert(told(Seq::<EffectView>::empty()) =~= Seq::empty());
    assert(all_obeyed(s, Seq::empty()) == s);
    if sent.len() == 0 {
        assert(sent =~= Seq::empty());
    } else if sent.len() == 1 {
        let effect = sent[0];
        assert(sent =~= seq![effect]);
        lemma_told_one(effect);
        match effect {
            EffectView::Send(message) => lemma_one_obeyed(s, message),
            EffectView::SendBatch(_) => {},
            _ => {},
        }
        if let WorkspaceMsg::ClearTerminal(TerminalId::Output(output)) = msg {
            law_fed_by_lists_each_input_once(s, output);
            lemma_deletions_obeyed(s, s.fed_by(output));
            let there = all_obeyed(s, deletions(s.fed_by(output)));
            assert forall|key: (usize, usize)| #[trigger]
                there.connections.contains_key(key) <==> next_state(
                    w,
                    s,
                    msg,
                ).connections.contains_key(key) by {
                assert(s.fed_by(output).contains(input_of_key(key))
                    <==> s.connections.contains_key(key) && s.connections[key] == output);
            }
            assert(there.connections =~= next_state(w, s, msg).connections);
        }
    } else {
        let rest = sent.drop_last();
        assert(rest =~= seq![sent[0]]);
        lemma_told_one(sent[0]);
        match sent.last() {
            EffectView::Send(message) => {
                assert(told(sent) =~= seq![message]);
                lemma_one_obeyed(s, message);
            },
            _ => {
                assert(told(sent) =~= Seq::empty());
            },
        }
    }
}

/// Letting go of a dragged window tells the mixer where the window is.
pub proof fn law_dropped_window_is_told(w: WorkspaceView, s: StateView, drag: Drag, ev: MouseEvent)
    requires
        w.mouse == MouseMode::Drag(drag),
        s.geometry.contains_key(drag.module.0),
    ensures
        ({
            let up = WorkspaceMsg::MouseUp(ev);
            let sent = effects(w, s, up);
            &&& next_workspace(w, s, up).mouse == MouseMode::Normal
            &&& sent.len() > 0
            &&& sent.last() == EffectView::Send(
                ClientMessage::UpdateWindowGeometry(
                    drag.module,
                    next_state(w, s, up).geometry[drag.module.0],
                ),
            )
        }),
{
}

/// A dragged window goes as far as the pointer does, whichever points it comes by: going on from
/// one point to another is going straight to the other.
pub proof fn law_dragging_adds_up(
    w: WorkspaceView,
    s: StateView,
    drag: Drag,
    first: MouseEvent,
    second: MouseEvent,
)
    requires
        w.mouse == MouseMode::Drag(drag),
        acceptable(w, s, WorkspaceMsg::MouseMove(first)),
        acceptable(
            next_workspace(w, s, WorkspaceMsg::MouseMove(first)),
            next_state(w, s, WorkspaceMsg::MouseMove(first)),
            WorkspaceMsg::MouseMove(second),
        ),
        acceptable(w, s, WorkspaceMsg::MouseMove(second)),
    ensures
        ({
            let step = WorkspaceMsg::MouseMove(first);
            let go = WorkspaceMsg::MouseMove(second);
            &&& next_state(next_workspace(w, s, step), next_state(w, s, step), go) == next_state(
                w,
                s,
                go,
            )
            &&& next_workspace(next_workspace(w, s, step), next_state(w, s, step), go)
                == next_workspace(w, s, go)
        }),
{
    let id = drag.module.0;
    if s.geometry.contains_key(id) {
        let moved = Drag { origin: first.position(), ..drag };
        let step = dragged(s.geometry[id], drag, first.position());
        let go = dragged(s.geometry[id], drag, second.position());
        assert(dragged(step, moved, second.position()) == go);
        assert(s.geometry.insert(id, step).insert(id, go) =~= s.geometry.insert(id, go));
    }
}

/// The workspace and the state after the pointer has moved through the given points.
pub open spec fn moved(w: WorkspaceView, s: StateView, moves: Seq<MouseEvent>) -> (
    WorkspaceView,
    StateView,
)
    decreases moves.len(),
{
    if moves.len() == 0 {
        (w, s)
    } else {
        let (w1, s1) = moved(w, s, moves.drop_last());
        let msg = WorkspaceMsg::MouseMove(moves.last());
        (next_workspace(w1, s1, msg), next_state(w1, s1, msg))
    }
}

/// Whether every one of the moves can be handled in its turn.
pub open spec fn moves_acceptable(
    w: WorkspaceView,
    s: StateView,
    moves: Seq<MouseEvent>,
) -> bool
    decreases moves.len(),
{
    moves.len() > 0 ==> {
        let (w1, s1) = moved(w, s, moves.drop_last());
        &&& moves_acceptable(w, s, moves.drop_last())
        &&& acceptable(w1, s1, WorkspaceMsg::MouseMove(moves.last()))
    }
}

/// However the pointer moves while a window is dragged, the window has gone as far as the pointer,
/// and nothing else has changed.
pub proof fn law_window_follows_the_pointer(
    w: WorkspaceView,
    s: StateView,
    drag: Drag,
    moves: Seq<MouseEvent>,
)
    requires
        w.mouse == MouseMode::Drag(drag),
        moves.len() > 0,
        moves_acceptable(w, s, moves),
    ensures
        ({
            let (w1, s1) = moved(w, s, moves);
            let to = moves.last().position();
            let id = drag.module.0;
            &&& w1 == (WorkspaceView {
                mouse: MouseMode::Drag(Drag { origin: to, ..drag }),
                ..w
            })
            &&& s1 == (StateView { geometry: s1.geometry, ..s })
            &&& s1.geometry.remove(id) == s.geometry.remove(id)
            &&& s1.geometry.contains_key(id) <==> s.geometry.contains_key(id)
            &&& s.geometry.contains_key(id) ==> {
                let before = s.geometry[id];
                let after = s1.geometry[id];
                &&& after.z_index == before.z_index
                &&& after.position.x == before.position.x + to.x - drag.origin.x
                &&& after.position.y == before.position.y + to.y - drag.origin.y
            }
        }),
    decreases moves.len(),
{
    let rest = moves.drop_last();
    let id = drag.module.0;
    let (w0, s0) = moved(w, s, rest);
    let (w1, s1) = moved(w, s, moves);
    if rest.len() == 0 {
        assert((w0, s0) == (w, s));
    } else {
        law_window_follows_the_pointer(w, s, drag, rest);
    }
    assert(s1.geometry.remove(id) =~= s0.geometry.remove(id));
}

/// A window that is dragged back to where it was taken hold of is where it was.
pub proof fn law_dragging_back_restores(
    w: WorkspaceView,
    s: StateView,
    drag: Drag,
    away: MouseEvent,
    back: MouseEvent,
)
    requires
        w.mouse == MouseMode::Drag(drag),
        back.position() == drag.origin,
        acceptable(w, s, WorkspaceMsg::MouseMove(away)),
        acceptable(
            next_workspace(w, s, WorkspaceMsg::MouseMove(away)),
            next_state(w, s, WorkspaceMsg::MouseMove(away)),
            WorkspaceMsg::MouseMove(back),
        ),
    ensures
        next_state(
            next_workspace(w, s, WorkspaceMsg::MouseMove(away)),
            next_state(w, s, WorkspaceMsg::MouseMove(away)),
            WorkspaceMsg::MouseMove(back),
        ) == s,
{
    law_dragging_adds_up(w, s, drag, away, back);
    if s.geometry.contains_key(drag.module.0) {
        let id = drag.module.0;
        assert(dragged(s.geometry[id], drag, drag.origin) == s.geometry[id]);
        assert(s.geometry.insert(id, s.geometry[id]) =~= s.geometry);
    }
}

/// Nothing but letting go, taking hold of a window anew or adding a module ends a drag.
pub proof fn law_a_drag_goes_on(w: WorkspaceView, s: StateView, drag: Drag, msg: WorkspaceMsg)
    requires
        w.mouse == MouseMode::Drag(drag),
        !(msg is MouseUp),
        !(msg is DragStart),
        !(msg is CreateModule),
    ensures
        next_workspace(w, s, msg).mouse is Drag,
        next_workspace(w, s, msg).mouse->Drag_0.module == drag.module,
{
}

/// Whether a window is on a layer below the one that the next raised window goes to.
pub open spec fn below_next(w: WorkspaceView, s: StateView, id: usize) -> bool {
    s.geometry.contains_key(id) ==> s.geometry[id].z_index < w.next_z
}

/// No layer is handed out twice: one that has been is below the next one ever after, and with it
/// every window that has been raised to it.
pub proof fn law_raised_windows_stay_below(
    w: WorkspaceView,
    s: StateView,
    msg: WorkspaceMsg,
    id: usize,
)
    requires
        acceptable(w, s, msg),
    ensures
        next_workspace(w, s, msg).next_z >= w.next_z,
        below_next(w, s, id) ==> below_next(next_workspace(w, s, msg), next_state(w, s, msg), id),
        msg matches WorkspaceMsg::DragStart(module, _) && module.0 == id ==> below_next(
            next_workspace(w, s, msg),
            next_state(w, s, msg),
            id,
        ),
{
}

/// Taking hold of a window brings it in front of every other that is on a layer handed out before,
/// and leaves every window where it stands.
pub proof fn law_taking_hold_raises(
    w: WorkspaceView,
    s: StateView,
    module: ModuleId,
    ev: MouseEvent,
    other: usize,
)
    requires
        acceptable(w, s, WorkspaceMsg::DragStart(module, ev)),
        s.geometry.contains_key(module.0),
        s.geometry.contains_key(other),
    ensures
        ({
            let after = next_state(w, s, WorkspaceMsg::DragStart(module, ev)).geometry;
            &&& after[module.0].z_index == w.next_z
            &&& other != module.0 ==> after[other] == s.geometry[other]
            &&& other != module.0 && below_next(w, s, other) ==> after[other].z_index
                < after[module.0].z_index
            &&& after[other].position == s.geometry[other].position
        }),
{
}

/// Bringing the windows in line with the modules a second time changes nothing.
pub proof fn law_windows_settle(
    before: Map<usize, WindowRefView>,
    after: Map<usize, WindowRefView>,
    again: Map<usize, WindowRefView>,
    modules: Map<usize, ModuleParams>,
)
    requires
        in_line(before, after, modules),
        in_line(after, again, modules),
    ensures
        again == after,
{
    assert forall|id: usize| #[trigger] again.contains_key(id) implies again[id] == after[id] by {
        assert(modules.dom().contains(id));
        assert(after.dom().contains(id));
    }
    assert(again =~= after);
}

/// Whether every window has one reference for each terminal of its module.
pub open spec fn windows_suit(w: WorkspaceView, s: StateView) -> bool {
    forall|id: usize| #[trigger]
        w.windows.contains_key(id) && s.modules.contains_key(id) ==> w.windows[id].suits(
            s.modules[id],
        )
}

/// Windows keep suiting their modules, whatever message is handled.
pub proof fn law_windows_keep_suiting(w: WorkspaceView, s: StateView, msg: WorkspaceMsg)
    requires
        windows_suit(w, s),
    ensures
        windows_suit(next_workspace(w, s, msg), next_state(w, s, msg)),
{
    let after = next_state(w, s, msg);
    assert forall|id: usize| #[trigger]
        w.windows.contains_key(id) && after.modules.contains_key(id) implies w.windows[id].suits(
        after.modules[id],
    ) by {
        assert(s.modules.contains_key(id));
        law_modules_keep_their_kind(w, s, msg, id);
    }
}

/// Windows suit their modules once they have been brought in line with them, as long as modules
/// that were there before are still of their kind.
pub proof fn law_windows_suit_in_line(
    before: Map<usize, WindowRefView>,
    old_modules: Map<usize, ModuleParams>,
    after: WorkspaceView,
    s: StateView,
)
    requires
        forall|id: usize| #[trigger]
            before.contains_key(id) && s.modules.contains_key(id) ==> old_modules.contains_key(id)
                && before[id].suits(old_modules[id]) && old_modules[id].same_kind(s.modules[id]),
        in_line(before, after.windows, s.modules),
    ensures
        windows_suit(after, s),
{
}

/// Whether no page element can be taken for another, in one window or across them.
pub open spec fn windows_apart(windows: Map<usize, WindowRefView>) -> bool {
    &&& forall|id: usize| #[trigger] windows.contains_key(id) ==> windows[id].distinct()
    &&& forall|a: usize, b: usize| #[trigger]
        windows.contains_key(a) && #[trigger] windows.contains_key(b) && a != b
            ==> windows[a].apart(windows[b])
}

/// Page elements stay told apart, however often the windows are brought in line with the modules.
pub proof fn law_windows_stay_apart(
    before: Map<usize, WindowRefView>,
    after: Map<usize, WindowRefView>,
    modules: Map<usize, ModuleParams>,
)
    requires
        windows_apart(before),
        in_line(before, after, modules),
    ensures
        windows_apart(after),
{
    assert forall|a: usize, b: usize| #[trigger]
        after.contains_key(a) && #[trigger] after.contains_key(b) && a != b implies after[a].apart(
        after[b],
    ) by {
        if !before.contains_key(a) {
            assert(newly_opened(before, after, a, modules[a]));
        } else if !before.contains_key(b) {
            assert(newly_opened(before, after, b, modules[b]));
            assert(after[b].apart(after[a]));
        } else {
            assert(before[a].apart(before[b]));
        }
    }
}

/// Page elements stay told apart, whatever message is handled: no window is opened by it, and none
/// gets other elements.
pub proof fn law_messages_keep_windows_apart(w: WorkspaceView, s: StateView, msg: WorkspaceMsg)
    requires
        windows_apart(w.windows),
    ensures
        next_workspace(w, s, msg).windows <= w.windows,
        windows_apart(next_workspace(w, s, msg).windows),
{
    let after = next_workspace(w, s, msg).windows;
    assert forall|id: usize| #[trigger] after.contains_key(id) implies w.windows.contains_key(id)
        && after[id] == w.windows[id] by {
    }
}

/// Opening a window keeps page elements told apart.
pub proof fn law_opened_window_stays_apart(
    windows: Map<usize, WindowRefView>,
    id: usize,
    opened: WindowRefView,
)
    requires
        windows_apart(windows),
        opened.distinct(),
        forall|other: usize| #[trigger]
            windows.contains_key(other) ==> opened.apart(windows[other]),
    ensures
        windows_apart(windows.insert(id, opened)),
{
    let after = windows.insert(id, opened);
    assert forall|a: usize, b: usize| #[trigger]
        after.contains_key(a) && #[trigger] after.contains_key(b) && a != b implies after[a].apart(
        after[b],
    ) by {
        if a == id {
            assert(windows.contains_key(b));
        } else if b == id {
            assert(windows.contains_key(a));
            assert(opened.apart(windows[a]));
        } else {
            assert(windows.contains_key(a) && windows.contains_key(b));
        }
    }
}

/// Where a reference of a window stands among all of them.
proof fn lemma_node_among_all(refs: WindowRefView, terminal: TerminalId) -> (i: int)
    requires
        refs.node(terminal) is Some,
    ensures
        1 <= i < refs.all().len(),
        refs.all()[i] == refs.node(terminal).unwrap(),
        i == match terminal {
            TerminalId::Input(input) => 1 + input.1 as int,
            TerminalId::Output(output) => 1 + refs.inputs.len() + output.1,
        },
        terminal is Input <==> i < 1 + refs.inputs.len(),
{
    match terminal {
        TerminalId::Input(input) => 1 + input.1 as int,
        TerminalId::Output(output) => 1 + refs.inputs.len() + output.1,
    }
}

/// Different terminals are never located by one and the same page element, nor by that of a window.
pub proof fn law_terminals_have_elements_of_their_own(
    w: WorkspaceView,
    s: StateView,
    a: TerminalId,
    b: TerminalId,
    id: usize,
)
    requires
        windows_apart(w.windows),
        terminal_node(w, s, a) is Some,
    ensures
        a != b && terminal_node(w, s, b) is Some ==> terminal_node(w, s, a) != terminal_node(
            w,
            s,
            b,
        ),
        w.windows.contains_key(id) ==> terminal_node(w, s, a).unwrap() != w.windows[id].module,
{
    let m = a.module_id().0;
    let n = b.module_id().0;
    let mine = w.windows[m];
    let i = lemma_node_among_all(mine, a);
    if a != b && terminal_node(w, s, b) is Some {
        let j = lemma_node_among_all(w.windows[n], b);
        if m != n {
            assert(mine.apart(w.windows[n]));
            assert(mine.all()[i] != w.windows[n].all()[j]);
        } else {
            assert(mine.distinct());
            assert(i != j);
            assert(mine.all()[i] != mine.all()[j]);
        }
    }
    if w.windows.contains_key(id) {
        assert(w.windows[id].all()[0] == w.windows[id].module);
        if m != id {
            assert(mine.apart(w.windows[id]));
            assert(mine.all()[i] != w.windows[id].all()[0]);
        } else {
            assert(mine.distinct());
            assert(mine.all()[i] != mine.all()[0]);
        }
    }
}

/// Every terminal that a window shows is found again when a line is to be drawn to it.
pub proof fn law_shown_terminals_are_found(
    w: WorkspaceView,
    s: StateView,
    id: usize,
    index: int,
)
    requires
        w.windows.contains_key(id),
        s.geometry.contains_key(id),
        w.windows[id].inputs.len() <= usize::MAX,
        w.windows[id].outputs.len() <= usize::MAX,
    ensures
        ({
            let inputs = window_content(w, s, id).inputs();
            0 <= index < inputs.len() ==> terminal_node(w, s, inputs[index].0) == Some(
                inputs[index].1,
            )
        }),
        ({
            let outputs = window_content(w, s, id).outputs();
            0 <= index < outputs.len() ==> terminal_node(w, s, outputs[index].0) == Some(
                outputs[index].1,
            )
        }),
{
}

/// Where two sets of offsets put the ends of connections at the same places, the lines are the
/// same.
proof fn lemma_lines_agree(
    w: WorkspaceView,
    s: StateView,
    a: TerminalOffsetsView,
    b: TerminalOffsetsView,
    keys: Seq<(usize, usize)>,
)
    requires
        forall|terminal: TerminalId| #[trigger]
            connection_ends(s, keys).contains(terminal) ==> a.offset(terminal) == b.offset(
                terminal,
            ),
    ensures
        connection_lines(w, s, a, keys) == connection_lines(w, s, b, keys),
    decreases keys.len(),
{
    if keys.len() > 0 {
        let rest = keys.drop_last();
        let ends = connection_ends(s, keys);
        let rest_ends = connection_ends(s, rest);
        let input = TerminalId::Input(input_of_key(keys.last()));
        let output = TerminalId::Output(s.connections[keys.last()]);
        assert(ends =~= rest_ends.push(input).push(output));
        assert(ends[ends.len() - 2] == input);
        assert(ends[ends.len() - 1] == output);
        assert(ends.contains(input) && ends.contains(output));
        assert forall|terminal: TerminalId| #[trigger]
            rest_ends.contains(terminal) implies a.offset(terminal) == b.offset(terminal) by {
            let i = choose|i: int| 0 <= i < rest_ends.len() && rest_ends[i] == terminal;
            assert(ends[i] == terminal);
            assert(ends.contains(terminal));
        }
        lemma_lines_agree(w, s, a, b, rest);
    }
}

/// The lines depend on the places of the terminals at their ends only: it is enough to find out
/// where these are.
pub proof fn law_lines_need_only_their_ends(
    w: WorkspaceView,
    s: StateView,
    a: TerminalOffsetsView,
    b: TerminalOffsetsView,
)
    requires
        forall|terminal: TerminalId| #[trigger]
            line_ends(w, s).contains(terminal) ==> a.offset(terminal) == b.offset(terminal),
    ensures
        all_lines(w, s, a) == all_lines(w, s, b),
{
    let keys = ascending_keys(s.connections.dom());
    let ends = connection_ends(s, keys);
    assert forall|terminal: TerminalId| #[trigger] ends.contains(terminal) implies a.offset(
        terminal,
    ) == b.offset(terminal) by {
        let i = choose|i: int| 0 <= i < ends.len() && ends[i] == terminal;
        assert(line_ends(w, s)[i] == terminal);
        assert(line_ends(w, s).contains(terminal));
    }
    lemma_lines_agree(w, s, a, b, keys);
    if let MouseMode::Connect(terminal, Some(_)) = w.mouse {
        assert(line_ends(w, s)[ends.len() as int] == terminal);
        assert(line_ends(w, s).contains(terminal));
    }
}

/// Choosing from the menu closes it, and asks for such a module where the menu was open, on the
/// next layer. Nothing is shown of it until the mixer has created it.
pub proof fn law_menu_choice_creates(
    w: WorkspaceView,
    s: StateView,
    params: ModuleParams,
    position: Coords,
)
    requires
        w.mouse == MouseMode::ContextMenu(position),
        acceptable(w, s, WorkspaceMsg::CreateModule(params, position)),
    ensures
        ({
            let choice = WorkspaceMsg::CreateModule(params, position);
            &&& next_workspace(w, s, choice).mouse == MouseMode::Normal
            &&& next_state(w, s, choice) == s
            &&& effects(w, s, choice) == seq![
                EffectView::Send(
                    ClientMessage::CreateModule(
                        params,
                        WindowGeometry { position, z_index: w.next_z as usize },
                    ),
                ),
            ]
            &&& next_workspace(w, s, choice).next_z == w.next_z + 1
        }),
{
}

/// Settings that a window asks for are taken on, as long as its module is there and of the kind
/// that they are for.
pub proof fn law_settings_are_taken_on(
    w: WorkspaceView,
    s: StateView,
    id: ModuleId,
    params: ModuleParams,
)
    requires
        s.modules.contains_key(id.0),
        s.modules[id.0].same_kind(params),
    ensures
        window_effects(id, WindowMsg::UpdateParams(params)) == seq![
            WindowEffect::Send(WorkspaceMsg::UpdateModuleParams(id, params)),
        ],
        next_state(w, s, WorkspaceMsg::UpdateModuleParams(id, params)).modules
            == s.modules.insert(id.0, params),
{
}

/// Settings for another kind of module, or for none that is known, are turned down: nothing
/// changes, and nothing is sent.
pub proof fn law_other_settings_are_turned_down(
    w: WorkspaceView,
    s: StateView,
    id: ModuleId,
    params: ModuleParams,
)
    requires
        !s.modules.contains_key(id.0) || !s.modules[id.0].same_kind(params),
    ensures
        next_workspace(w, s, WorkspaceMsg::UpdateModuleParams(id, params)) == w,
        next_state(w, s, WorkspaceMsg::UpdateModuleParams(id, params)) == s,
        effects(w, s, WorkspaceMsg::UpdateModuleParams(id, params)).len() == 0,
{
}

/// Every window that can be shown is shown, no other is, and none is shown twice.
pub proof fn law_windows_are_shown_once(w: WorkspaceView, s: StateView)
    requires
        w.windows.dom().finite(),
    ensures
        forall|id: usize|
            w.windows.contains_key(id) && s.modules.contains_key(id) && s.geometry.contains_key(id)
                <==> #[trigger] shown_windows(w, s).contains(window_content(w, s, id)),
        forall|i: int, j: int|
            0 <= i < j < shown_windows(w, s).len() ==> (#[trigger] shown_windows(w, s)[i]).id
                != (#[trigger] shown_windows(w, s)[j]).id,
{
    let ids = ascending_ids(w.windows.dom());
    let kept = ids.filter(showable(s));
    let shown = shown_windows(w, s);
    lemma_ascending_ids(w.windows.dom());
    lemma_filtered(ids, showable(s));
    assert(ids.no_duplicates()) by {
        assert forall|i: int, j: int|
            0 <= i < ids.len() && 0 <= j < ids.len() && i != j implies ids[i] != ids[j] by {
            if i < j {
                assert(id_order()(ids[i], ids[j]));
            } else {
                assert(id_order()(ids[j], ids[i]));
            }
        }
    }
    assert forall|id: usize|
        w.windows.contains_key(id) && s.modules.contains_key(id) && s.geometry.contains_key(id)
            <==> #[trigger] shown.contains(window_content(w, s, id)) by {
        if w.windows.contains_key(id) && showable(s)(id) {
            assert(w.windows.dom().contains(id));
            assert(kept.contains(id));
            let i = choose|i: int| 0 <= i < kept.len() && kept[i] == id;
            assert(shown[i] == window_content(w, s, id));
        }
        if shown.contains(window_content(w, s, id)) {
            let i = choose|i: int| 0 <= i < shown.len() && shown[i] == window_content(w, s, id);
            assert(shown[i] == window_content(w, s, kept[i]));
            assert(kept[i] == id);
            assert(kept.contains(id));
            assert(w.windows.dom().contains(id));
        }
    }
    assert forall|i: int, j: int| 0 <= i < j < shown.len() implies (#[trigger] shown[i]).id != (
    #[trigger] shown[j]).id by {
        assert(shown[i].id == ModuleId(kept[i]));
        assert(shown[j].id == ModuleId(kept[j]));
    }
}

/// The line of a connection among others is drawn.
proof fn lemma_line_drawn(
    w: WorkspaceView,
    s: StateView,
    offsets: TerminalOffsetsView,
    keys: Seq<(usize, usize)>,
    index: int,
)
    requires
        0 <= index < keys.len(),
        connection_line(w, s, offsets, keys[index]) is Some,
    ensures
        connection_lines(w, s, offsets, keys).contains(
            connection_line(w, s, offsets, keys[index]).unwrap(),
        ),
    decreases keys.len(),
{
    let lines = connection_lines(w, s, offsets, keys);
    let line = connection_line(w, s, offsets, keys[index]).unwrap();
    if index == keys.len() - 1 {
        assert(lines[lines.len() - 1] == line);
    } else {
        let rest = connection_lines(w, s, offsets, keys.drop_last());
        lemma_line_drawn(w, s, offsets, keys.drop_last(), index);
        let i = choose|i: int| 0 <= i < rest.len() && rest[i] == line;
        assert(lines[i] == line);
    }
}

/// Where both ends of a connection are on the page, a line joins them.
pub proof fn law_connected_terminals_are_joined(
    w: WorkspaceView,
    s: StateView,
    offsets: TerminalOffsetsView,
    input: InputId,
    output: OutputId,
    from: Coords,
    to: Coords,
)
    requires
        s.connections.dom().finite(),
        s.connections.contains_key(input.key()),
        s.connections[input.key()] == output,
        terminal_point(w, s, offsets, TerminalId::Output(output)) == Some(from),
        terminal_point(w, s, offsets, TerminalId::Input(input)) == Some(to),
    ensures
        all_lines(w, s, offsets).contains((from, to)),
{
    let keys = ascending_keys(s.connections.dom());
    lemma_ascending_keys(s.connections.dom());
    assert(s.connections.dom().contains(input.key()));
    let index = choose|i: int| 0 <= i < keys.len() && keys[i] == input.key();
    assert(input_of_key(input.key()) == input);
    lemma_line_drawn(w, s, offsets, keys, index);
    let lines = connection_lines(w, s, offsets, keys);
    let i = choose|i: int| 0 <= i < lines.len() && lines[i] == (from, to);
    assert(all_lines(w, s, offsets)[i] == (from, to));
}

} // verus!
