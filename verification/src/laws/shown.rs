//! What there is to see, and where.

use vstd::prelude::*;

use crate::message::{MouseMode, WorkspaceMsg};
use crate::order::{
    ascending_ids, ascending_keys, id_order, key_order, lemma_ascending_ids, lemma_ascending_keys,
    lemma_filter_keeps_order, lemma_filtered,
};
use crate::protocol::{
    Coords, Indication, InputId, ModuleId, ModuleParams, OutputId, TerminalId,
};
use crate::scene::{
    connection_ends, connection_line, connection_lines, on_page, shown_windows, showable,
    terminal_point, window_content, ContextMenu, Scene, TerminalOffsets, TerminalOffsetsView,
};
use crate::state::{State, StateView};
use crate::transition::WorkspaceView;
use crate::window::WindowProps;
use crate::window_ref::{lemma_distinct_parts, WindowRefView};
use crate::workspace::{Workspace, WorkspaceProps};

verus! {

/// Whether there is one reference for each terminal that modules of this kind have.
pub open spec fn one_for_each_terminal(refs: WindowRefView, module: ModuleParams) -> bool {
    match module {
        ModuleParams::SineGenerator(_) => refs.inputs.len() == 0 && refs.outputs.len() == 1,
        ModuleParams::OutputDevice(_) => refs.inputs.len() == 1 && refs.outputs.len() == 0,
        ModuleParams::Mixer2ch(_) => refs.inputs.len() == 2 && refs.outputs.len() == 1,
        ModuleParams::FmSine(_) => refs.inputs.len() == 1 && refs.outputs.len() == 1,
    }
}

/// Whether a reference is one of a window's.
pub open spec fn has_node(refs: WindowRefView, node: yew::NodeRef) -> bool {
    node == refs.module || refs.inputs.contains(node) || refs.outputs.contains(node)
}

/// Whether no two references of a window are alike.
pub open spec fn all_different(refs: WindowRefView) -> bool {
    &&& refs.inputs.no_duplicates()
    &&& refs.outputs.no_duplicates()
    &&& !refs.inputs.contains(refs.module)
    &&& !refs.outputs.contains(refs.module)
    &&& forall|i: int, j: int|
        0 <= i < refs.inputs.len() && 0 <= j < refs.outputs.len() ==> #[trigger] refs.inputs[i]
            != #[trigger] refs.outputs[j]
}

/// Whether a window is new: it has references for just the terminals of its module, none of them
/// alike, and none that one of the other windows has or that any window had before.
pub open spec fn opened_for(
    before: Map<usize, WindowRefView>,
    after: Map<usize, WindowRefView>,
    id: usize,
    module: ModuleParams,
) -> bool {
    &&& after.contains_key(id)
    &&& one_for_each_terminal(after[id], module)
    &&& all_different(after[id])
    &&& forall|other: usize, node: yew::NodeRef| #[trigger]
        before.contains_key(other) && has_node(after[id], node) ==> !#[trigger] has_node(
            before[other],
            node,
        )
    &&& forall|other: usize, node: yew::NodeRef| #[trigger]
        after.contains_key(other) && other != id && has_node(after[id], node)
            ==> !#[trigger] has_node(after[other], node)
}

/// A reference that a window has stands among all of them.
proof fn lemma_has_node(refs: WindowRefView, node: yew::NodeRef) -> (i: int)
    requires
        has_node(refs, node),
    ensures
        0 <= i < refs.all().len(),
        refs.all()[i] == node,
{
    if node == refs.module {
        assert(refs.all()[0] == node);
        0
    } else if refs.inputs.contains(node) {
        let i = choose|i: int| 0 <= i < refs.inputs.len() && refs.inputs[i] == node;
        assert(refs.all()[1 + i] == node);
        1 + i
    } else {
        let i = choose|i: int| 0 <= i < refs.outputs.len() && refs.outputs[i] == node;
        assert(refs.all()[1 + refs.inputs.len() + i] == node);
        1 + refs.inputs.len() + i
    }
}

/// Windows without a reference in common have none.
proof fn lemma_apart(a: WindowRefView, b: WindowRefView, node: yew::NodeRef)
    requires
        a.apart(b),
        has_node(a, node),
    ensures
        !has_node(b, node),
{
    if has_node(b, node) {
        let i = lemma_has_node(a, node);
        let j = lemma_has_node(b, node);
        assert(a.all()[i] != b.all()[j]);
    }
}

/// A window that has none of its references in common with others is new.
proof fn lemma_opened_for(
    before: Map<usize, WindowRefView>,
    after: Map<usize, WindowRefView>,
    id: usize,
    module: ModuleParams,
)
    requires
        after.contains_key(id),
        after[id].suits(module),
        after[id].distinct(),
        forall|other: usize| #[trigger]
            before.contains_key(other) ==> after[id].apart(before[other]),
        forall|other: usize| #[trigger]
            after.contains_key(other) && other != id ==> after[id].apart(after[other]),
    ensures
        opened_for(before, after, id, module),
{
    lemma_distinct_parts(after[id]);
    assert forall|other: usize, node: yew::NodeRef| #[trigger]
        before.contains_key(other) && has_node(after[id], node) implies !#[trigger] has_node(
        before[other],
        node,
    ) by {
        lemma_apart(after[id], before[other], node);
    }
    assert forall|other: usize, node: yew::NodeRef| #[trigger]
        after.contains_key(other) && other != id && has_node(after[id], node)
            implies !#[trigger] has_node(after[other], node) by {
        lemma_apart(after[id], after[other], node);
    }
}

/// A new workspace has a window for each module and no other, and the pointer is free.
pub proof fn law_a_new_workspace(props: WorkspaceProps<'_>, ws: Workspace)
    requires
        call_ensures(Workspace::create, (props,), ws),
    ensures
        ws@.mouse == MouseMode::Normal,
        ws@.next_z == 0,
        ws@.state_seq == props.state_seq,
        forall|id: usize| #[trigger]
            ws@.windows.contains_key(id) <==> props.state.modules@.contains_key(id),
        forall|id: usize| #[trigger]
            ws@.windows.contains_key(id) ==> opened_for(
                Map::empty(),
                ws@.windows,
                id,
                props.state.modules@[id],
            ),
{
    assert forall|id: usize| #[trigger]
        ws@.windows.contains_key(id) <==> props.state.modules@.contains_key(id) by {
        assert(ws@.windows.dom().contains(id) <==> props.state@.modules.dom().contains(id));
    }
    assert forall|id: usize| #[trigger] ws@.windows.contains_key(id) implies opened_for(
        Map::empty(),
        ws@.windows,
        id,
        props.state.modules@[id],
    ) by {
        lemma_opened_for(Map::empty(), ws@.windows, id, props.state.modules@[id]);
    }
}

/// A workspace that is given another state keeps the windows of modules that are still there as
/// they are, closes the others, and opens one for each module that has none. It has to be shown
/// anew just if a window was opened or closed, or if the state is another one. What the pointer is
/// used for stays.
pub proof fn law_a_changed_workspace(ws: &mut Workspace, props: WorkspaceProps<'_>, render: bool)
    requires
        call_ensures(Workspace::change, (ws, props), render),
    ensures
        final(ws)@.mouse == old(ws)@.mouse,
        final(ws)@.next_z == old(ws)@.next_z,
        final(ws)@.state_seq == props.state_seq,
        forall|id: usize| #[trigger]
            final(ws)@.windows.contains_key(id) <==> props.state.modules@.contains_key(id),
        forall|id: usize| #[trigger]
            final(ws)@.windows.contains_key(id) && old(ws)@.windows.contains_key(id)
                ==> final(ws)@.windows[id] == old(ws)@.windows[id],
        forall|id: usize| #[trigger]
            final(ws)@.windows.contains_key(id) && !old(ws)@.windows.contains_key(id)
                ==> opened_for(
                old(ws)@.windows,
                final(ws)@.windows,
                id,
                props.state.modules@[id],
            ),
        !render <==> {
            &&& props.state_seq == old(ws)@.state_seq
            &&& forall|id: usize| #[trigger]
                old(ws)@.windows.contains_key(id) <==> props.state.modules@.contains_key(id)
        },
{
    let before = old(ws)@.windows;
    let after = final(ws)@.windows;
    let modules = props.state.modules@;
    assert forall|id: usize| #[trigger] after.contains_key(id) <==> modules.contains_key(id) by {
        assert(after.dom().contains(id) <==> modules.dom().contains(id));
    }
    assert forall|id: usize| #[trigger]
        after.contains_key(id) && !before.contains_key(id) implies opened_for(
        before,
        after,
        id,
        modules[id],
    ) by {
        lemma_opened_for(before, after, id, modules[id]);
    }
    if forall|id: usize| #[trigger] before.contains_key(id) <==> modules.contains_key(id) {
        assert(before.dom() =~= modules.dom());
    }
    if before.dom() == modules.dom() {
        assert forall|id: usize| #[trigger] before.contains_key(id) <==> modules.contains_key(
            id,
        ) by {
            assert(before.dom().contains(id) <==> modules.dom().contains(id));
        }
    }
}

/// Opening a window for a module gives it one that is new, and leaves every other as it is.
pub proof fn law_an_opened_window(ws: &mut Workspace, id: ModuleId, module: ModuleParams)
    requires
        call_ensures(Workspace::create_window, (ws, id, &module), ()),
    ensures
        final(ws)@.mouse == old(ws)@.mouse,
        final(ws)@.next_z == old(ws)@.next_z,
        final(ws)@.state_seq == old(ws)@.state_seq,
        final(ws)@.windows.remove(id.0) == old(ws)@.windows.remove(id.0),
        opened_for(old(ws)@.windows, final(ws)@.windows, id.0, module),
{
    let before = old(ws)@.windows;
    let after = final(ws)@.windows;
    assert(after.remove(id.0) =~= before.remove(id.0));
    assert forall|other: usize| #[trigger] after.contains_key(other) && other != id.0 implies after[
    id.0].apart(after[other]) by {
        assert(before.contains_key(other));
    }
    lemma_opened_for(before, after, id.0, module);
}

/// Once it has been put on the page, a workspace is to be shown anew, as it is.
pub proof fn law_a_mounted_workspace(ws: &mut Workspace, render: bool)
    requires
        call_ensures(Workspace::mounted, (ws,), render),
    ensures
        render,
        *final(ws) == *old(ws),
{
}

/// The reference to a terminal, by the module that it is of, the side and the index: if the window
/// is there and placed, and has such a terminal.
pub open spec fn element_of(w: WorkspaceView, s: State, terminal: TerminalId) -> Option<
    yew::NodeRef,
> {
    match terminal {
        TerminalId::Input(InputId(ModuleId(id), index)) => if s.geometry@.contains_key(id)
            && w.windows.contains_key(id) && index < w.windows[id].inputs.len() {
            Some(w.windows[id].inputs[index as int])
        } else {
            None
        },
        TerminalId::Output(OutputId(ModuleId(id), index)) => if s.geometry@.contains_key(id)
            && w.windows.contains_key(id) && index < w.windows[id].outputs.len() {
            Some(w.windows[id].outputs[index as int])
        } else {
            None
        },
    }
}

/// How far a terminal's element begins from the corner of its window, if that has been found out.
pub open spec fn offset_of(offsets: TerminalOffsets, terminal: TerminalId) -> Option<Coords> {
    match terminal {
        TerminalId::Input(InputId(ModuleId(id), index)) => if offsets.inputs@.contains_key(
            (id, index),
        ) {
            Some(offsets.inputs@[(id, index)])
        } else {
            None
        },
        TerminalId::Output(OutputId(ModuleId(id), index)) => if offsets.outputs@.contains_key(
            (id, index),
        ) {
            Some(offsets.outputs@[(id, index)])
        } else {
            None
        },
    }
}

/// The number of the module that a terminal is of.
pub open spec fn module_of(terminal: TerminalId) -> usize {
    match terminal {
        TerminalId::Input(InputId(ModuleId(id), _)) => id,
        TerminalId::Output(OutputId(ModuleId(id), _)) => id,
    }
}

/// Whether a terminal is to be seen.
pub open spec fn is_seen(
    w: WorkspaceView,
    s: State,
    offsets: TerminalOffsets,
    terminal: TerminalId,
) -> bool {
    element_of(w, s, terminal) is Some && offset_of(offsets, terminal) is Some
}

/// Whether a terminal has its middle at a point: nine pixels across and nine down from where its
/// element begins, which is as far from the corner of its window as has been found out.
pub open spec fn middle_at(
    s: State,
    offsets: TerminalOffsets,
    terminal: TerminalId,
    point: Coords,
) -> bool {
    let window = s.geometry@[module_of(terminal)].position;
    let offset = offset_of(offsets, terminal).unwrap();
    &&& point.x == window.x + offset.x + 9
    &&& point.y == window.y + offset.y + 9
}

/// Whether the numbers that it takes to find the middle of a terminal are in range, if it is seen.
pub open spec fn middle_in_range(
    w: WorkspaceView,
    s: State,
    offsets: TerminalOffsets,
    terminal: TerminalId,
) -> bool {
    is_seen(w, s, offsets, terminal) ==> {
        let window = s.geometry@[module_of(terminal)].position;
        let offset = offset_of(offsets, terminal).unwrap();
        &&& offset.x + 9 <= i32::MAX
        &&& offset.y + 9 <= i32::MAX
        &&& i32::MIN <= window.x + offset.x + 9 <= i32::MAX
        &&& i32::MIN <= window.y + offset.y + 9 <= i32::MAX
    }
}

/// Where a terminal's element begins is read back as it was noted, and that of every other terminal
/// as it was. At first nothing is known of any.
pub proof fn law_noted_offsets_are_found(
    none: TerminalOffsets,
    offsets: &mut TerminalOffsets,
    terminal: TerminalId,
    offset: Coords,
    other: TerminalId,
)
    requires
        call_ensures(TerminalOffsets::new, (), none),
        call_ensures(TerminalOffsets::record, (offsets, terminal, offset), ()),
    ensures
        offset_of(none, other) is None,
        offset_of(*final(offsets), terminal) == Some(offset),
        other != terminal ==> offset_of(*final(offsets), other) == offset_of(*old(offsets), other),
{
}

/// What is read is what is known of the terminal.
pub proof fn law_offsets_are_read(
    offsets: TerminalOffsets,
    terminal: TerminalId,
    offset: Option<Coords>,
)
    requires
        call_ensures(TerminalOffsets::offset, (&offsets, terminal), offset),
    ensures
        offset == offset_of(offsets, terminal),
{
}

/// A terminal's element is that of its own window, side and index.
pub proof fn law_terminals_are_located_by_their_elements(
    ws: Workspace,
    state: State,
    terminal: TerminalId,
    node: Option<&yew::NodeRef>,
)
    requires
        call_ensures(Workspace::terminal_node, (&ws, &state, terminal), node),
    ensures
        node is Some <==> element_of(ws@, state, terminal) is Some,
        node is Some ==> Some(*node.unwrap()) == element_of(ws@, state, terminal),
{
}

/// What the workspace knows of a terminal's place is where its middle is to be seen.
proof fn lemma_middle(
    w: WorkspaceView,
    state: State,
    offsets: TerminalOffsets,
    terminal: TerminalId,
)
    requires
        middle_in_range(w, state, offsets, terminal),
    ensures
        on_page(w, state@, offsets@, terminal) == is_seen(w, state, offsets, terminal),
        terminal_point(w, state@, offsets@, terminal) is Some <==> is_seen(
            w,
            state,
            offsets,
            terminal,
        ),
        is_seen(w, state, offsets, terminal) ==> middle_at(
            state,
            offsets,
            terminal,
            terminal_point(w, state@, offsets@, terminal).unwrap(),
        ),
{
}

/// A terminal that is seen is found at its middle; one that is not is not found at all.
pub proof fn law_terminals_are_found_at_their_middle(
    ws: Workspace,
    state: State,
    offsets: TerminalOffsets,
    terminal: TerminalId,
    can: bool,
    point: Option<Coords>,
)
    requires
        call_ensures(Workspace::can_locate, (&ws, &state, &offsets, terminal), can),
        call_ensures(
            Workspace::screen_coords_for_terminal,
            (&ws, &state, &offsets, terminal),
            point,
        ),
    ensures
        can <==> middle_in_range(ws@, state, offsets, terminal),
        can ==> call_requires(
            Workspace::screen_coords_for_terminal,
            (&ws, &state, &offsets, terminal),
        ),
        can ==> (point is Some <==> is_seen(ws@, state, offsets, terminal)),
        can && point is Some ==> middle_at(state, offsets, terminal, point.unwrap()),
{
}

/// The input filed under a key.
pub open spec fn input_at(key: (usize, usize)) -> TerminalId {
    TerminalId::Input(InputId(ModuleId(key.0), key.1))
}

/// Whether the ends of every line to be drawn are in range.
pub open spec fn ends_in_range(w: WorkspaceView, s: State, offsets: TerminalOffsets) -> bool {
    &&& forall|key: (usize, usize)| #[trigger]
        s.connections@.contains_key(key) ==> middle_in_range(w, s, offsets, input_at(key)) && (
        is_seen(w, s, offsets, input_at(key)) ==> middle_in_range(
            w,
            s,
            offsets,
            TerminalId::Output(s.connections@[key]),
        ))
    &&& w.mouse matches MouseMode::Connect(terminal, Some(_)) ==> middle_in_range(
        w,
        s,
        offsets,
        terminal,
    )
}

/// The workspace can be shown unless the end of a line is out of range.
pub proof fn law_workspaces_can_be_shown(
    ws: Workspace,
    state: State,
    offsets: TerminalOffsets,
    can: bool,
)
    requires
        call_ensures(Workspace::can_show, (&ws, &state, &offsets), can),
    ensures
        can <==> ends_in_range(ws@, state, offsets),
        can ==> call_requires(Workspace::scene, (&ws, &state, &offsets)),
{
    assert forall|key: (usize, usize)| #[trigger]
        state.connections@.contains_key(key) implies crate::scene::connection_fits(
        ws@,
        state@,
        offsets@,
        key,
    ) == (middle_in_range(ws@, state, offsets, input_at(key)) && (is_seen(
        ws@,
        state,
        offsets,
        input_at(key),
    ) ==> middle_in_range(
        ws@,
        state,
        offsets,
        TerminalId::Output(state.connections@[key]),
    ))) by {
    }
    if can {
        assert forall|key: (usize, usize)| #[trigger]
            state.connections@.contains_key(key) implies middle_in_range(
            ws@,
            state,
            offsets,
            input_at(key),
        ) && (is_seen(ws@, state, offsets, input_at(key)) ==> middle_in_range(
            ws@,
            state,
            offsets,
            TerminalId::Output(state.connections@[key]),
        )) by {
            assert(state@.connections.contains_key(key));
        }
    }
    if ends_in_range(ws@, state, offsets) {
        assert forall|key: (usize, usize)| #[trigger]
            state@.connections.contains_key(key) implies crate::scene::connection_fits(
            ws@,
            state@,
            offsets@,
            key,
        ) by {
            assert(state.connections@.contains_key(key));
        }
    }
}

/// Whether keys stand in order: by module, then by index.
pub open spec fn in_key_order(keys: Seq<(usize, usize)>) -> bool {
    forall|i: int, j: int|
        0 <= i < j < keys.len() ==> {
            let a = #[trigger] keys[i];
            let b = #[trigger] keys[j];
            a.0 < b.0 || (a.0 == b.0 && a.1 < b.1)
        }
}

/// The lines of connections are those that have one, in the same order.
proof fn lemma_connection_lines(
    w: WorkspaceView,
    s: StateView,
    offsets: TerminalOffsetsView,
    keys: Seq<(usize, usize)>,
)
    ensures
        ({
            let pred = |key: (usize, usize)| connection_line(w, s, offsets, key) is Some;
            connection_lines(w, s, offsets, keys) == keys.filter(pred).map_values(
                |key: (usize, usize)| connection_line(w, s, offsets, key).unwrap(),
            )
        }),
    decreases keys.len(),
{
    reveal(Seq::filter);
    let pred = |key: (usize, usize)| connection_line(w, s, offsets, key) is Some;
    let line = |key: (usize, usize)| connection_line(w, s, offsets, key).unwrap();
    if keys.len() > 0 {
        let rest = keys.drop_last();
        lemma_connection_lines(w, s, offsets, rest);
        if pred(keys.last()) {
            assert(rest.filter(pred).push(keys.last()).map_values(line) =~= rest.filter(
                pred,
            ).map_values(line).push(line(keys.last())));
        }
        assert(connection_lines(w, s, offsets, keys) =~= keys.filter(pred).map_values(line));
    } else {
        assert(keys.filter(pred).map_values(line) =~= Seq::empty());
    }
}

/// Every connection whose ends are both seen has its line, from the middle of the output to the
/// middle of the input, in the order of the inputs, and no other has one. After these comes the
/// line of the connection being drawn, if the terminal that it was begun at is seen: on the
/// terminal's own side it ends there, on the other one at the pointer. There are no more lines.
pub proof fn law_lines_join_connected_terminals(
    ws: Workspace,
    state: State,
    offsets: TerminalOffsets,
    scene: Scene,
) -> (keys: Seq<(usize, usize)>)
    requires
        call_ensures(Workspace::scene, (&ws, &state, &offsets), scene),
        ends_in_range(ws@, state, offsets),
    ensures
        in_key_order(keys),
        forall|key: (usize, usize)| #[trigger]
            keys.contains(key) <==> {
                &&& state.connections@.contains_key(key)
                &&& is_seen(ws@, state, offsets, input_at(key))
                &&& is_seen(ws@, state, offsets, TerminalId::Output(state.connections@[key]))
            },
        ({
            let lines = scene.connections.connections@;
            &&& keys.len() <= lines.len()
            &&& forall|i: int|
                0 <= i < keys.len() ==> {
                    let output = TerminalId::Output(state.connections@[#[trigger] keys[i]]);
                    &&& middle_at(state, offsets, output, lines[i].0)
                    &&& middle_at(state, offsets, input_at(keys[i]), lines[i].1)
                }
            &&& match ws@.mouse {
                MouseMode::Connect(terminal, Some(pointer)) => if is_seen(
                    ws@,
                    state,
                    offsets,
                    terminal,
                ) {
                    &&& lines.len() == keys.len() + 1
                    &&& match terminal {
                        TerminalId::Input(_) => lines.last().0 == pointer && middle_at(
                            state,
                            offsets,
                            terminal,
                            lines.last().1,
                        ),
                        TerminalId::Output(_) => lines.last().1 == pointer && middle_at(
                            state,
                            offsets,
                            terminal,
                            lines.last().0,
                        ),
                    }
                } else {
                    lines.len() == keys.len()
                },
                _ => lines.len() == keys.len(),
            }
        }),
        scene.connections.width == 2000,
        scene.connections.height == 2000,
{
    let w = ws@;
    let s = state@;
    let all = ascending_keys(s.connections.dom());
    let pred = |key: (usize, usize)| connection_line(w, s, offsets@, key) is Some;
    let keys = all.filter(pred);
    assert(state.connections@.dom().finite());
    lemma_ascending_keys(s.connections.dom());
    lemma_filtered(all, pred);
    lemma_filter_keeps_order(all, pred, key_order());
    lemma_connection_lines(w, s, offsets@, all);
    assert forall|i: int, j: int| 0 <= i < j < keys.len() implies {
        let a = #[trigger] keys[i];
        let b = #[trigger] keys[j];
        a.0 < b.0 || (a.0 == b.0 && a.1 < b.1)
    } by {
        assert(key_order()(keys[i], keys[j]));
    }
    assert forall|key: (usize, usize)| #[trigger]
        state.connections@.contains_key(key) implies pred(key) == (is_seen(
        w,
        state,
        offsets,
        input_at(key),
    ) && is_seen(w, state, offsets, TerminalId::Output(state.connections@[key]))) by {
        lemma_middle(w, state, offsets, input_at(key));
        if is_seen(w, state, offsets, input_at(key)) {
            lemma_middle(w, state, offsets, TerminalId::Output(state.connections@[key]));
        }
    }
    assert forall|key: (usize, usize)| #[trigger] keys.contains(key) <==> {
        &&& state.connections@.contains_key(key)
        &&& is_seen(w, state, offsets, input_at(key))
        &&& is_seen(w, state, offsets, TerminalId::Output(state.connections@[key]))
    } by {
        assert(s.connections.dom().contains(key) <==> all.contains(key));
        assert(keys.contains(key) <==> all.contains(key) && pred(key));
    }
    let lines = scene.connections.connections@;
    assert(scene.connections@.connections == lines);
    assert forall|i: int| 0 <= i < keys.len() implies {
        let output = TerminalId::Output(state.connections@[#[trigger] keys[i]]);
        &&& middle_at(state, offsets, output, lines[i].0)
        &&& middle_at(state, offsets, input_at(keys[i]), lines[i].1)
    } by {
        assert(keys.contains(keys[i]));
        lemma_middle(w, state, offsets, input_at(keys[i]));
        lemma_middle(w, state, offsets, TerminalId::Output(state.connections@[keys[i]]));
        assert(lines[i] == connection_line(w, s, offsets@, keys[i]).unwrap());
    }
    if let MouseMode::Connect(terminal, Some(_)) = w.mouse {
        lemma_middle(w, state, offsets, terminal);
    }
    keys
}

/// The terminals that are to be located for the lines are both ends of every connection, input
/// first, in the order of the inputs, and then that at which a connection is being drawn.
pub proof fn law_ends_of_lines_are_listed(
    ws: Workspace,
    state: State,
    terminals: Vec<TerminalId>,
) -> (keys: Seq<(usize, usize)>)
    requires
        call_ensures(Workspace::line_terminals, (&ws, &state), terminals),
    ensures
        in_key_order(keys),
        forall|key: (usize, usize)| #[trigger]
            keys.contains(key) <==> state.connections@.contains_key(key),
        2 * keys.len() <= terminals@.len(),
        forall|i: int|
            0 <= i < keys.len() ==> {
                &&& terminals@[2 * i] == input_at(#[trigger] keys[i])
                &&& terminals@[2 * i + 1] == TerminalId::Output(state.connections@[keys[i]])
            },
        match ws@.mouse {
            MouseMode::Connect(terminal, Some(_)) => terminals@.len() == 2 * keys.len() + 1
                && terminals@.last() == terminal,
            _ => terminals@.len() == 2 * keys.len(),
        },
{
    let s = state@;
    let keys = ascending_keys(s.connections.dom());
    assert(state.connections@.dom().finite());
    lemma_ascending_keys(s.connections.dom());
    assert forall|i: int, j: int| 0 <= i < j < keys.len() implies {
        let a = #[trigger] keys[i];
        let b = #[trigger] keys[j];
        a.0 < b.0 || (a.0 == b.0 && a.1 < b.1)
    } by {
        assert(key_order()(keys[i], keys[j]));
    }
    assert forall|key: (usize, usize)| #[trigger]
        keys.contains(key) <==> state.connections@.contains_key(key) by {
        assert(s.connections.dom().contains(key) <==> keys.contains(key));
    }
    lemma_connection_ends(s, keys);
    keys
}

/// The ends of connections, one after the other.
proof fn lemma_connection_ends(s: StateView, keys: Seq<(usize, usize)>)
    ensures
        connection_ends(s, keys).len() == 2 * keys.len(),
        forall|i: int|
            0 <= i < keys.len() ==> {
                &&& connection_ends(s, keys)[2 * i] == input_at(#[trigger] keys[i])
                &&& connection_ends(s, keys)[2 * i + 1] == TerminalId::Output(
                    s.connections[keys[i]],
                )
            },
    decreases keys.len(),
{
    if keys.len() > 0 {
        let rest = keys.drop_last();
        lemma_connection_ends(s, rest);
        assert forall|i: int| 0 <= i < keys.len() implies {
            &&& connection_ends(s, keys)[2 * i] == input_at(#[trigger] keys[i])
            &&& connection_ends(s, keys)[2 * i + 1] == TerminalId::Output(s.connections[keys[i]])
        } by {
            if i < rest.len() {
                assert(rest[i] == keys[i]);
            }
        }
    }
}

/// Whether two reports name the same devices.
pub open spec fn same_report(a: Indication, b: Indication) -> bool {
    match (a, b) {
        (Indication::OutputDevice(a), Indication::OutputDevice(b)) => match (
            a.devices,
            b.devices,
        ) {
            (Some(a), Some(b)) => a@ == b@,
            (None, None) => true,
            _ => false,
        },
    }
}

/// Whether a window shows its module with the settings, the place and the reports that the state
/// has for it, under the name of its kind, with the references that the workspace has for it.
pub open spec fn shows_module(props: WindowProps, w: WorkspaceView, s: State) -> bool {
    let id = props.id.0;
    &&& w.windows.contains_key(id)
    &&& s.modules@.contains_key(id)
    &&& s.geometry@.contains_key(id)
    &&& props.module == s.modules@[id]
    &&& props.geometry == s.geometry@[id]
    &&& props.name@ == match s.modules@[id] {
        ModuleParams::SineGenerator(_) => "SineGenerator"@,
        ModuleParams::OutputDevice(_) => "OutputDevice"@,
        ModuleParams::Mixer2ch(_) => "Mixer2ch"@,
        ModuleParams::FmSine(_) => "FmSine"@,
    }
    &&& props.refs.module == w.windows[id].module
    &&& props.refs.inputs@ == w.windows[id].inputs
    &&& props.refs.outputs@ == w.windows[id].outputs
    &&& props.indication is Some <==> s.indications@.contains_key(id)
    &&& props.indication matches Some(indication) ==> same_report(indication, s.indications@[id])
}

/// Every window whose module is known and placed is shown, in the order of their numbers, each
/// once, and no other is. Each shows what the state holds of its module.
pub proof fn law_windows_show_their_modules(
    ws: Workspace,
    state: State,
    offsets: TerminalOffsets,
    scene: Scene,
)
    requires
        call_ensures(Workspace::scene, (&ws, &state, &offsets), scene),
    ensures
        forall|i: int|
            0 <= i < scene.windows@.len() ==> shows_module(
                #[trigger] scene.windows@[i],
                ws@,
                state,
            ),
        forall|i: int, j: int|
            0 <= i < j < scene.windows@.len() ==> (#[trigger] scene.windows@[i]).id.0 < (
            #[trigger] scene.windows@[j]).id.0,
        forall|id: usize| #[trigger]
            ws@.windows.contains_key(id) && state.modules@.contains_key(id)
                && state.geometry@.contains_key(id) ==> exists|i: int|
                0 <= i < scene.windows@.len() && (#[trigger] scene.windows@[i]).id.0 == id,
{
    let w = ws@;
    let s = state@;
    let ids = ascending_ids(w.windows.dom());
    let kept = ids.filter(showable(s));
    ws.lemma_windows_finite();
    lemma_ascending_ids(w.windows.dom());
    lemma_filtered(ids, showable(s));
    lemma_filter_keeps_order(ids, showable(s), id_order());
    let views = scene.windows@.map_values(|props: WindowProps| props@);
    assert(views == shown_windows(w, s));
    assert(views.len() == scene.windows@.len());
    assert(shown_windows(w, s).len() == kept.len());
    assert forall|i: int| 0 <= i < kept.len() implies {
        &&& (#[trigger] scene.windows@[i])@ == window_content(w, s, kept[i])
        &&& w.windows.contains_key(kept[i])
        &&& showable(s)(kept[i])
    } by {
        assert(views[i] == scene.windows@[i]@);
        assert(kept.contains(kept[i]));
        assert(w.windows.dom().contains(kept[i]));
    }
    assert forall|i: int| 0 <= i < scene.windows@.len() implies shows_module(
        #[trigger] scene.windows@[i],
        w,
        state,
    ) by {
        let props = scene.windows@[i];
        assert(props@.id == ModuleId(kept[i]));
    }
    assert forall|i: int, j: int| 0 <= i < j < scene.windows@.len() implies (
    #[trigger] scene.windows@[i]).id.0 < (#[trigger] scene.windows@[j]).id.0 by {
        assert(id_order()(kept[i], kept[j]));
    }
    assert forall|id: usize| #[trigger]
        w.windows.contains_key(id) && state.modules@.contains_key(id)
            && state.geometry@.contains_key(id) implies exists|i: int|
        0 <= i < scene.windows@.len() && (#[trigger] scene.windows@[i]).id.0 == id by {
        assert(w.windows.dom().contains(id));
        assert(ids.contains(id) && showable(s)(id));
        assert(kept.contains(id));
        let i = choose|i: int| 0 <= i < kept.len() && kept[i] == id;
        assert(scene.windows@[i].id.0 == id);
    }
}

/// Whether these are the bits of a double that is the given number of hertz, from 64 to 127.
pub open spec fn is_hertz(bits: u64, hertz: int) -> bool {
    &&& 64 <= hertz < 128
    &&& bits == 1029 * 0x10_0000_0000_0000 + (hertz - 64) * 0x4000_0000_0000
}

/// Whether the menu is open at a point, and offers a module of each kind, with the settings that a
/// new one has.
pub open spec fn menu_offers_all_kinds(menu: ContextMenu, at: Coords) -> bool {
    &&& menu.position == at
    &&& menu.items@.len() == 4
    &&& menu.items@[0].label@ == "Sine Generator"@
    &&& menu.items@[0].params matches ModuleParams::SineGenerator(params) && is_hertz(
        params.freq.0,
        100,
    )
    &&& menu.items@[1].label@ == "Mixer (2 channel)"@
    &&& menu.items@[1].params is Mixer2ch
    &&& menu.items@[2].label@ == "Output Device"@
    &&& menu.items@[2].params matches ModuleParams::OutputDevice(params) && params.device is None
    &&& menu.items@[3].label@ == "FM Sine"@
    &&& menu.items@[3].params matches ModuleParams::FmSine(params) && is_hertz(
        params.freq_lo.0,
        90,
    ) && is_hertz(params.freq_hi.0, 110)
}

/// The entries of the menu are a module of each kind.
proof fn lemma_menu(menu: ContextMenu, at: Coords)
    requires
        menu.position == at,
        menu.entries() == crate::scene::menu_items(),
    ensures
        menu_offers_all_kinds(menu, at),
{
    let entries = menu.entries();
    assert(entries.len() == menu.items@.len());
    assert(entries.len() == 4);
    assert(entries[0] == menu.items@[0]@);
    assert(entries[1] == menu.items@[1]@);
    assert(entries[2] == menu.items@[2]@);
    assert(entries[3] == menu.items@[3]@);
}

/// The menu is shown while it is open, at the point where it was opened, and offers a module of
/// each kind.
pub proof fn law_menus_are_shown_where_they_are_opened(
    ws: Workspace,
    state: State,
    offsets: TerminalOffsets,
    scene: Scene,
    alone: Option<ContextMenu>,
)
    requires
        call_ensures(Workspace::scene, (&ws, &state, &offsets), scene),
        call_ensures(Workspace::view_context_menu, (&ws,), alone),
    ensures
        match ws@.mouse {
            MouseMode::ContextMenu(at) => {
                &&& scene.menu matches Some(menu) && menu_offers_all_kinds(menu, at)
                &&& alone matches Some(menu) && menu_offers_all_kinds(menu, at)
            },
            _ => scene.menu is None && alone is None,
        },
{
    if let MouseMode::ContextMenu(at) = ws@.mouse {
        lemma_menu(scene.menu.unwrap(), at);
        lemma_menu(alone.unwrap(), at);
    }
}

/// A menu that is opened at a point is there, and offers a module of each kind.
pub proof fn law_an_opened_menu(at: Coords, menu: ContextMenu)
    requires
        call_ensures(ContextMenu::at, (at,), menu),
    ensures
        menu_offers_all_kinds(menu, at),
{
    lemma_menu(menu, at);
}

/// Choosing from the menu asks for what was chosen, where the menu is open.
pub proof fn law_what_is_chosen_is_asked_for(menu: ContextMenu, index: usize, msg: WorkspaceMsg)
    requires
        index < menu.items@.len(),
        call_ensures(ContextMenu::choose_item, (&menu, index), msg),
    ensures
        call_requires(ContextMenu::choose_item, (&menu, index)),
        msg matches WorkspaceMsg::CreateModule(params, at) && params
            == menu.items@[index as int].params && at == menu.position,
{
}

/// A menu is put where it is open.
pub proof fn law_menus_are_put_in_place(menu: ContextMenu, style: String, text: String)
    requires
        call_ensures(ContextMenu::style, (&menu,), style),
        call_ensures(crate::text::position_style, (menu.position,), text),
    ensures
        style@ == text@,
{
}

/// What the pointer is used for, and the references of a window, can be asked for.
pub proof fn law_workspaces_tell_what_they_hold(
    ws: Workspace,
    mouse: MouseMode,
    id: ModuleId,
    refs: Option<&crate::window_ref::WindowRef>,
)
    requires
        call_ensures(Workspace::mouse, (&ws,), mouse),
        call_ensures(Workspace::window_ref, (&ws, id), refs),
    ensures
        mouse == ws@.mouse,
        refs is Some <==> ws@.windows.contains_key(id.0),
        refs matches Some(refs) ==> {
            &&& refs.module == ws@.windows[id.0].module
            &&& refs.inputs@ == ws@.windows[id.0].inputs
            &&& refs.outputs@ == ws@.windows[id.0].outputs
        },
{
}

/// A new state has nothing in it.
pub proof fn law_a_new_state(state: State)
    requires
        call_ensures(State::new, (), state),
    ensures
        state.modules@.dom() == Set::<usize>::empty(),
        state.geometry@.dom() == Set::<usize>::empty(),
        state.indications@.dom() == Set::<usize>::empty(),
        state.connections@.dom() == Set::<(usize, usize)>::empty(),
{
}

} // verus!
