//! The workspace: its windows, and what the pointer does to them.

use std::collections::BTreeMap;
use vstd::prelude::*;
use vstd::string::StringExecFns;

use crate::connections::ConnectionsProps;
use crate::counter::Counter;
use crate::message::{Drag, Effect, EffectView, MouseMode, Update, WorkspaceMsg};
use crate::node::{share_node, share_nodes};
use crate::order::{
    id_order, ids_in_order, key_order, keys_in_order, lemma_filter_step, lemma_not_yet_listed,
    lemma_take_contains, lists,
};
use crate::protocol::{
    ClientMessage, Coords, InputId, ModuleId, ModuleParams, TerminalId, WindowGeometry,
};
use crate::scene::{
    all_lines, connection_ends, connection_fits, connection_lines, line_ends, lines_fit,
    menu_shows, point_fits, showable, shown_windows, terminal_node, terminal_point,
    window_content, ContextMenu, Scene, TerminalOffsets, CANVAS_SIZE, TERMINAL_CENTER,
};
use crate::state::State;
use crate::transition::{
    acceptable, drag_effects, drag_fits, drag_state, next_state, next_workspace, outcome,
    WorkspaceView,
};
use crate::window::WindowProps;
use crate::window_ref::{WindowRef, WindowRefView};

verus! {

/// What the workspace is told to show: a state, and the number of its version.
pub struct WorkspaceProps<'a> {
    pub state: &'a State,
    pub state_seq: usize,
}

pub struct Workspace {
    state_seq: usize,
    gen_z_index: Counter,
    mouse: MouseMode,
    window_refs: BTreeMap<usize, WindowRef>,
}

impl View for Workspace {
    type V = WorkspaceView;

    closed spec fn view(&self) -> WorkspaceView {
        WorkspaceView {
            mouse: self.mouse,
            next_z: self.gen_z_index@,
            windows: self.window_refs@.map_values(|refs: WindowRef| refs@),
            state_seq: self.state_seq,
        }
    }
}

/// An update that does nothing outside of the workspace.
fn quiet(should_render: bool) -> (update: Update)
    ensures
        update@.should_render == should_render,
        update@.effects == Seq::<EffectView>::empty(),
{
    Update { should_render, effects: Vec::new() }
}

/// An update that does one thing outside of the workspace.
fn with_effect(should_render: bool, effect: Effect) -> (update: Update)
    ensures
        update@.should_render == should_render,
        update@.effects == seq![effect@],
{
    let mut effects: Vec<Effect> = Vec::new();
    effects.push(effect);
    Update { should_render, effects }
}

/// Whether a window is new and fit for its module: it has one reference for each terminal, no two
/// of them alike, and none in common with a window that was there before or with another one that
/// is there now.
pub open spec fn newly_opened(
    before: Map<usize, WindowRefView>,
    after: Map<usize, WindowRefView>,
    id: usize,
    module: ModuleParams,
) -> bool {
    &&& after[id].suits(module)
    &&& after[id].distinct()
    &&& forall|other: usize| #[trigger]
        before.contains_key(other) ==> after[id].apart(before[other])
    &&& forall|other: usize| #[trigger]
        after.contains_key(other) && other != id ==> after[id].apart(after[other])
}

/// The windows once they have been brought in line with the modules: one for each of them, those
/// that were there before as they were, the others newly opened.
pub open spec fn in_line(
    before: Map<usize, WindowRefView>,
    after: Map<usize, WindowRefView>,
    modules: Map<usize, ModuleParams>,
) -> bool {
    &&& after.dom() == modules.dom()
    &&& forall|id: usize| #[trigger]
        after.contains_key(id) ==> if before.contains_key(id) {
            after[id] == before[id]
        } else {
            newly_opened(before, after, id, modules[id])
        }
}

/// Windows that are in line with part of the modules are so with one more, once its window has been
/// opened.
proof fn lemma_one_more_window(
    before: Map<usize, WindowRefView>,
    here: Map<usize, WindowRefView>,
    after: Map<usize, WindowRefView>,
    modules: Map<usize, ModuleParams>,
    id: usize,
)
    requires
        !here.contains_key(id),
        !before.contains_key(id),
        forall|other: usize| #[trigger] before.contains_key(other) ==> here.contains_key(other),
        forall|other: usize| #[trigger]
            here.contains_key(other) ==> if before.contains_key(other) {
                here[other] == before[other]
            } else {
                newly_opened(before, here, other, modules[other])
            },
        after == here.insert(id, after[id]),
        after[id].suits(modules[id]),
        after[id].distinct(),
        forall|other: usize| #[trigger]
            here.contains_key(other) ==> after[id].apart(here[other]),
    ensures
        forall|other: usize| #[trigger]
            after.contains_key(other) ==> if before.contains_key(other) {
                after[other] == before[other]
            } else {
                newly_opened(before, after, other, modules[other])
            },
{
    assert forall|other: usize| #[trigger]
        after.contains_key(other) && !before.contains_key(other) implies newly_opened(
        before,
        after,
        other,
        modules[other],
    ) by {
        if other == id {
            assert forall|b: usize| #[trigger] before.contains_key(b) implies after[id].apart(
                before[b],
            ) by {
                assert(here.contains_key(b));
            }
            assert forall|b: usize| #[trigger] after.contains_key(b) && b != id implies after[id]
                .apart(after[b]) by {
                assert(here.contains_key(b));
            }
        } else {
            assert(here.contains_key(other));
            assert(newly_opened(before, here, other, modules[other]));
            assert forall|b: usize| #[trigger]
                after.contains_key(b) && b != other implies after[other].apart(after[b]) by {
                if b == id {
                    assert(after[id].apart(here[other]));
                } else {
                    assert(here.contains_key(b));
                }
            }
        }
    }
}

impl Workspace {
    /// A workspace with a window for each module.
    pub fn create(props: WorkspaceProps<'_>) -> (workspace: Workspace)
        ensures
            workspace@.mouse == MouseMode::Normal,
            workspace@.next_z == 0,
            workspace@.state_seq == props.state_seq,
            in_line(Map::empty(), workspace@.windows, props.state@.modules),
    {
        let mut workspace = Workspace {
            state_seq: props.state_seq,
            gen_z_index: Counter::new(),
            mouse: MouseMode::Normal,
            window_refs: BTreeMap::new(),
        };
        let ghost modules = props.state@.modules;
        let ids = ids_in_order(&props.state.modules);
        let mut i: usize = 0;
        while i < ids.len()
            invariant
                i <= ids@.len(),
                lists(ids@, props.state@.modules.dom(), id_order()),
                modules == props.state@.modules,
                workspace@.mouse == MouseMode::Normal,
                workspace@.next_z == 0,
                workspace@.state_seq == props.state_seq,
                forall|id: usize| #[trigger]
                    workspace@.windows.contains_key(id) <==> ids@.take(i as int).contains(id),
                forall|id: usize| #[trigger]
                    workspace@.windows.contains_key(id) ==> newly_opened(
                        Map::empty(),
                        workspace@.windows,
                        id,
                        props.state@.modules[id],
                    ),
            decreases ids@.len() - i,
        {
            let id = ids[i];
            proof {
                lemma_take_contains(ids@, i as int);
                lemma_not_yet_listed(ids@, modules.dom(), i as int);
                assert(ids@.contains(id));
                assert(props.state@.modules.dom().contains(id));
            }
            let ghost here = workspace@.windows;
            if let Some(module) = props.state.modules.get(&id) {
                workspace.create_window(ModuleId(id), module);
            }
            proof {
                lemma_one_more_window(Map::empty(), here, workspace@.windows, modules, id);
            }
            i += 1;
        }
        proof {
            assert(ids@.take(ids@.len() as int) =~= ids@);
            assert(workspace@.windows.dom() =~= props.state@.modules.dom()) by {
                assert forall|id: usize| #[trigger]
                    workspace@.windows.dom().contains(id)
                        <==> props.state@.modules.dom().contains(id) by {
                    assert(workspace@.windows.contains_key(id) <==> ids@.contains(id));
                }
            }
        }
        workspace
    }

    /// Takes on another state to show: opens windows for modules that have none, and closes those
    /// whose modules are gone.
    pub fn change(&mut self, new_props: WorkspaceProps<'_>) -> (should_render: bool)
        ensures
            final(self)@.mouse == old(self)@.mouse,
            final(self)@.next_z == old(self)@.next_z,
            final(self)@.state_seq == new_props.state_seq,
            in_line(old(self)@.windows, final(self)@.windows, new_props.state@.modules),
            should_render <==> old(self)@.windows.dom() != new_props.state@.modules.dom()
                || old(self)@.state_seq != new_props.state_seq,
    {
        let ghost before = self@.windows;
        let ghost modules = new_props.state@.modules;
        let mut should_render = false;

        let old_ids = ids_in_order(&self.window_refs);
        let new_ids = ids_in_order(&new_props.state.modules);
        proof {
            assert(self.window_refs@.dom() =~= before.dom());
        }

        let mut i: usize = 0;
        while i < new_ids.len()
            invariant
                i <= new_ids@.len(),
                lists(new_ids@, modules.dom(), id_order()),
                modules == new_props.state@.modules,
                before == old(self)@.windows,
                self@.mouse == old(self)@.mouse,
                self@.next_z == old(self)@.next_z,
                self@.state_seq == old(self)@.state_seq,
                forall|id: usize| #[trigger]
                    self@.windows.contains_key(id) <==> before.contains_key(id)
                        || new_ids@.take(i as int).contains(id),
                forall|id: usize| #[trigger]
                    self@.windows.contains_key(id) ==> if before.contains_key(id) {
                        self@.windows[id] == before[id]
                    } else {
                        newly_opened(before, self@.windows, id, modules[id])
                    },
                should_render ==> before.dom() != modules.dom(),
                !should_render ==> forall|id: usize| #[trigger]
                    new_ids@.take(i as int).contains(id) ==> before.contains_key(id),
            decreases new_ids@.len() - i,
        {
            let id = new_ids[i];
            proof {
                lemma_take_contains(new_ids@, i as int);
                assert(new_ids@.contains(id));
                assert(modules.dom().contains(id));
                assert(new_ids@.take(i + 1).contains(id));
                lemma_not_yet_listed(new_ids@, modules.dom(), i as int);
                assert(self@.windows.contains_key(id) <==> self.window_refs@.contains_key(id));
            }
            let ghost here = self@.windows;
            if !self.window_refs.contains_key(&id) {
                if let Some(module) = new_props.state.modules.get(&id) {
                    self.create_window(ModuleId(id), module);
                }
                should_render = true;
                proof {
                    assert(!before.dom().contains(id));
                    lemma_one_more_window(before, here, self@.windows, modules, id);
                }
            }
            i += 1;
        }
        proof {
            assert(new_ids@.take(new_ids@.len() as int) =~= new_ids@);
        }

        let mut i: usize = 0;
        while i < old_ids.len()
            invariant
                i <= old_ids@.len(),
                lists(old_ids@, before.dom(), id_order()),
                modules == new_props.state@.modules,
                self@.mouse == old(self)@.mouse,
                self@.next_z == old(self)@.next_z,
                self@.state_seq == old(self)@.state_seq,
                forall|id: usize| #[trigger]
                    self@.windows.contains_key(id) <==> (before.contains_key(id)
                        || modules.contains_key(id)) && (modules.contains_key(id)
                        || !old_ids@.take(i as int).contains(id)),
                forall|id: usize| #[trigger]
                    self@.windows.contains_key(id) ==> if before.contains_key(id) {
                        self@.windows[id] == before[id]
                    } else {
                        newly_opened(before, self@.windows, id, modules[id])
                    },
                should_render ==> before.dom() != modules.dom(),
                !should_render ==> forall|id: usize| #[trigger]
                    modules.contains_key(id) ==> before.contains_key(id),
                !should_render ==> forall|id: usize| #[trigger]
                    old_ids@.take(i as int).contains(id) ==> modules.contains_key(id),
            decreases old_ids@.len() - i,
        {
            let id = old_ids[i];
            let ghost here = self@.windows;
            proof {
                lemma_take_contains(old_ids@, i as int);
                assert(old_ids@.contains(id));
            }
            if !new_props.state.modules.contains_key(&id) {
                self.window_refs.remove(&id);
                should_render = true;
                assert(self@.windows =~= here.remove(id));
                assert forall|kept: usize| #[trigger]
                    self@.windows.contains_key(kept) && !before.contains_key(kept)
                        implies newly_opened(before, self@.windows, kept, modules[kept]) by {
                    assert(here.contains_key(kept));
                    assert(newly_opened(before, here, kept, modules[kept]));
                }
                assert(before.dom().contains(id) && !modules.dom().contains(id));
            }
            i += 1;
        }
        proof {
            assert(old_ids@.take(old_ids@.len() as int) =~= old_ids@);
            assert(self@.windows.dom() =~= modules.dom());
            if !should_render {
                assert(before.dom() =~= modules.dom());
            }
        }

        if self.state_seq != new_props.state_seq {
            should_render = true;
        }

        self.state_seq = new_props.state_seq;

        should_render
    }

    /// Once it has been put on the page, the workspace has to be shown anew: only now is it known
    /// where the terminals are.
    pub fn mounted(&mut self) -> (should_render: bool)
        ensures
            *final(self) == *old(self),
            should_render,
    {
        true
    }

    /// Opens a window for a module, in place of any that it has: with references of its own, which
    /// no window has had so far.
    pub fn create_window(&mut self, id: ModuleId, module: &ModuleParams)
        ensures
            final(self)@ == (WorkspaceView {
                windows: old(self)@.windows.insert(id.0, final(self)@.windows[id.0]),
                ..old(self)@
            }),
            final(self)@.windows[id.0].suits(*module),
            final(self)@.windows[id.0].distinct(),
            forall|other: usize| #[trigger]
                old(self)@.windows.contains_key(other) ==> final(self)@.windows[id.0].apart(
                    old(self)@.windows[other],
                ),
    {
        let held = self.held_nodes();
        let refs = WindowRef::for_module_besides(module, held);
        self.window_refs.insert(id.0, refs);
        proof {
            assert(self@.windows =~= old(self)@.windows.insert(id.0, refs@));
            assert forall|other: usize| #[trigger]
                old(self)@.windows.contains_key(other) implies refs@.apart(
                old(self)@.windows[other],
            ) by {
                let theirs = old(self)@.windows[other].all();
                assert forall|i: int, j: int|
                    0 <= i < refs@.all().len() && 0 <= j < theirs.len() implies #[trigger]
                    refs@.all()[i] != #[trigger] theirs[j] by {
                    assert(held@.contains(theirs[j]));
                }
            }
        }
    }

    /// Handles on all page elements of all windows.
    fn held_nodes(&self) -> (held: Vec<yew::NodeRef>)
        ensures
            forall|id: usize, i: int|
                self@.windows.contains_key(id) && 0 <= i < self@.windows[id].all().len()
                    ==> held@.contains(#[trigger] self@.windows[id].all()[i]),
    {
        let ids = ids_in_order(&self.window_refs);
        let mut held: Vec<yew::NodeRef> = Vec::new();
        proof {
            assert(self.window_refs@.dom() =~= self@.windows.dom());
        }
        let mut k: usize = 0;
        while k < ids.len()
            invariant
                k <= ids@.len(),
                lists(ids@, self@.windows.dom(), id_order()),
                forall|n: int, i: int|
                    0 <= n < k && 0 <= i < self@.windows[ids@[n]].all().len() ==> held@.contains(
                        #[trigger] self@.windows[ids@[n]].all()[i],
                    ),
            decreases ids@.len() - k,
        {
            let id = ids[k];
            let ghost before = held@;
            proof {
                assert(ids@.contains(id));
                assert(self@.windows.dom().contains(id));
                assert(self.window_refs@.contains_key(id));
            }
            if let Some(refs) = self.window_refs.get(&id) {
                held.push(share_node(&refs.module));
                let mut inputs = share_nodes(&refs.inputs);
                held.append(&mut inputs);
                let mut outputs = share_nodes(&refs.outputs);
                held.append(&mut outputs);
                proof {
                    assert(held@ =~= before + refs@.all());
                    assert(refs@ == self@.windows[id]);
                    assert forall|n: int, i: int|
                        0 <= n < k + 1 && 0 <= i < self@.windows[ids@[n]].all().len()
                            implies held@.contains(#[trigger] self@.windows[ids@[n]].all()[i]) by {
                        let node = self@.windows[ids@[n]].all()[i];
                        if n < k {
                            let j = choose|j: int| 0 <= j < before.len() && before[j] == node;
                            assert(held@[j] == node);
                        } else {
                            assert(held@[before.len() + i] == node);
                        }
                    }
                }
            }
            k += 1;
        }
        proof {
            assert forall|id: usize, i: int|
                self@.windows.contains_key(id) && 0 <= i < self@.windows[id].all().len()
                    implies held@.contains(#[trigger] self@.windows[id].all()[i]) by {
                assert(self@.windows.dom().contains(id));
                let n = choose|n: int| 0 <= n < ids@.len() && ids@[n] == id;
                assert(held@.contains(self@.windows[ids@[n]].all()[i]));
            }
        }
        held
    }

    /// A workspace has finitely many windows.
    pub proof fn lemma_windows_finite(&self)
        ensures
            self@.windows.dom().finite(),
    {
        assert(self.window_refs@.dom().finite());
        assert(self@.windows.dom() =~= self.window_refs@.dom());
    }

    /// Whether `update` can handle the message.
    pub fn accepts(&self, state: &State, msg: &WorkspaceMsg) -> (accepts: bool)
        ensures
            accepts == acceptable(self@, state@, *msg),
    {
        match msg {
            WorkspaceMsg::DragStart(module, _) => {
                !state.geometry.contains_key(&module.0) || !self.gen_z_index.is_exhausted()
            },
            WorkspaceMsg::CreateModule(_, _) => !self.gen_z_index.is_exhausted(),
            WorkspaceMsg::MouseUp(ev) | WorkspaceMsg::MouseMove(ev) => match self.mouse {
                MouseMode::Drag(drag) => match ev.position().checked_sub(drag.origin) {
                    Some(delta) => match state.geometry.get(&drag.module.0) {
                        Some(geometry) => geometry.position.checked_add(delta).is_some(),
                        None => true,
                    },
                    None => false,
                },
                _ => true,
            },
            _ => true,
        }
    }

    /// Lets the dragged window follow the pointer, on the page and in the state.
    fn drag_event(
        windows: &BTreeMap<usize, WindowRef>,
        state: &mut State,
        drag: Drag,
        to: Coords,
    ) -> (update: Update)
        requires
            drag_fits(old(state)@, drag, to),
        ensures
            final(state)@ == drag_state(old(state)@, drag, to),
            update@.should_render == old(state)@.geometry.contains_key(drag.module.0),
            update@.effects == drag_effects(
                windows@.map_values(|refs: WindowRef| refs@),
                old(state)@,
                drag,
                to,
            ),
    {
        let delta = to.sub(drag.origin);
        match state.geometry.get(&drag.module.0) {
            Some(geometry) => {
                let geometry = *geometry;
                let position = geometry.position.add(delta);
                state.geometry.insert(drag.module.0, WindowGeometry { position, ..geometry });
                if windows.contains_key(&drag.module.0) {
                    with_effect(true, Effect::MoveWindow(drag.module, position))
                } else {
                    quiet(true)
                }
            },
            None => quiet(false),
        }
    }

    /// Handles a message.
    pub fn update(&mut self, state: &mut State, msg: WorkspaceMsg) -> (update: Update)
        requires
            acceptable(old(self)@, old(state)@, msg),
        ensures
            final(self)@ == next_workspace(old(self)@, old(state)@, msg),
            final(state)@ == next_state(old(self)@, old(state)@, msg),
            update@ == outcome(old(self)@, old(state)@, msg),
    {
        match msg {
            WorkspaceMsg::DragStart(module, ev) => match state.geometry.get(&module.0) {
                Some(geometry) => {
                    let geometry = *geometry;
                    self.mouse = MouseMode::Drag(Drag { module, origin: ev.position() });
                    let z_index = self.gen_z_index.next();
                    state.geometry.insert(module.0, WindowGeometry { z_index, ..geometry });
                    quiet(true)
                },
                None => quiet(false),
            },
            WorkspaceMsg::MouseDown(ev) => if ev.right_button() {
                match self.mouse {
                    MouseMode::Connect(_, _) => {
                        self.mouse = MouseMode::Normal;
                    },
                    MouseMode::Normal | MouseMode::ContextMenu(_) => {
                        self.mouse = MouseMode::ContextMenu(ev.position());
                    },
                    MouseMode::Drag(_) => {},
                }
                let mut effects: Vec<Effect> = Vec::new();
                effects.push(Effect::PreventDefault);
                effects.push(Effect::StopPropagation);
                Update { should_render: true, effects }
            } else {
                match self.mouse {
                    MouseMode::Normal | MouseMode::Drag(_) | MouseMode::Connect(_, _) => quiet(
                        false,
                    ),
                    MouseMode::ContextMenu(_) => {
                        self.mouse = MouseMode::Normal;
                        quiet(true)
                    },
                }
            },
            WorkspaceMsg::MouseUp(ev) => match self.mouse {
                MouseMode::Drag(drag) => {
                    let mut update = Self::drag_event(
                        &self.window_refs,
                        state,
                        drag,
                        ev.position(),
                    );
                    if let Some(geometry) = state.geometry.get(&drag.module.0) {
                        update.effects.push(
                            Effect::Send(
                                ClientMessage::UpdateWindowGeometry(drag.module, *geometry),
                            ),
                        );
                    }
                    self.mouse = MouseMode::Normal;
                    update
                },
                MouseMode::Normal | MouseMode::Connect(_, _) | MouseMode::ContextMenu(_) => quiet(
                    false,
                ),
            },
            WorkspaceMsg::MouseMove(ev) => match self.mouse {
                MouseMode::Normal | MouseMode::ContextMenu(_) => quiet(false),
                MouseMode::Drag(drag) => {
                    self.mouse = MouseMode::Drag(Drag { origin: ev.position(), ..drag });
                    Self::drag_event(&self.window_refs, state, drag, ev.position())
                },
                MouseMode::Connect(terminal, _) => {
                    self.mouse = MouseMode::Connect(terminal, Some(ev.position()));
                    quiet(true)
                },
            },
            WorkspaceMsg::SelectTerminal(terminal) => match self.mouse {
                MouseMode::Normal | MouseMode::ContextMenu(_) => {
                    self.mouse = MouseMode::Connect(terminal, None);
                    quiet(false)
                },
                MouseMode::Connect(other, _) => match (terminal, other) {
                    (TerminalId::Input(input), TerminalId::Output(output))
                    | (TerminalId::Output(output), TerminalId::Input(input)) => {
                        state.connections.insert(input.key(), output);
                        self.mouse = MouseMode::Normal;
                        with_effect(
                            true,
                            Effect::Send(ClientMessage::CreateConnection(input, output)),
                        )
                    },
                    _ => quiet(false),
                },
                MouseMode::Drag(_) => quiet(false),
            },
            WorkspaceMsg::ClearTerminal(terminal) => match terminal {
                TerminalId::Input(input) => {
                    state.connections.remove(&input.key());
                    with_effect(true, Effect::Send(ClientMessage::DeleteConnection(input)))
                },
                TerminalId::Output(output) => {
                    let inputs = state.disconnect_output(output);
                    with_effect(true, Effect::SendBatch(deletions(&inputs)))
                },
            },
            WorkspaceMsg::DeleteWindow(module) => {
                state.delete_module(module);
                with_effect(true, Effect::Send(ClientMessage::DeleteModule(module)))
            },
            WorkspaceMsg::UpdateModuleParams(module, params) => {
                let known = match state.modules.get(&module.0) {
                    Some(current) => current.is_same_kind(&params),
                    None => false,
                };
                if known {
                    state.modules.insert(module.0, params.clone());
                    with_effect(
                        true,
                        Effect::Send(ClientMessage::UpdateModuleParams(module, params)),
                    )
                } else {
                    quiet(false)
                }
            },
            WorkspaceMsg::CreateModule(module, coords) => {
                self.mouse = MouseMode::Normal;
                let geometry = WindowGeometry {
                    position: coords,
                    z_index: self.gen_z_index.next(),
                };
                with_effect(false, Effect::Send(ClientMessage::CreateModule(module, geometry)))
            },
        }
    }
}

impl Workspace {
    /// What the pointer is being used for.
    pub fn mouse(&self) -> (mouse: MouseMode)
        ensures
            mouse == self@.mouse,
    {
        self.mouse
    }

    /// The references to the elements of a module's window.
    pub fn window_ref(&self, id: ModuleId) -> (refs: Option<&WindowRef>)
        ensures
            match refs {
                Some(refs) => self@.windows.contains_key(id.0) && self@.windows[id.0] == refs@,
                None => !self@.windows.contains_key(id.0),
            },
    {
        self.window_refs.get(&id.0)
    }

    /// The reference to a terminal's element, if it is in a window that is placed somewhere.
    pub fn terminal_node(&self, state: &State, terminal: TerminalId) -> (node: Option<
        &yew::NodeRef,
    >)
        ensures
            match node {
                Some(node) => terminal_node(self@, state@, terminal) == Some(*node),
                None => terminal_node(self@, state@, terminal) is None,
            },
    {
        if state.geometry.contains_key(&terminal.module_id().0) {
            match self.window_refs.get(&terminal.module_id().0) {
                Some(refs) => refs.node(terminal),
                None => None,
            }
        } else {
            None
        }
    }

    /// The terminals that lines are drawn between: `scene` needs to know where these are.
    pub fn line_terminals(&self, state: &State) -> (terminals: Vec<TerminalId>)
        ensures
            terminals@ == line_ends(self@, state@),
    {
        let keys = keys_in_order(&state.connections);
        let mut terminals: Vec<TerminalId> = Vec::new();
        let mut i: usize = 0;
        while i < keys.len()
            invariant
                i <= keys@.len(),
                lists(keys@, state@.connections.dom(), key_order()),
                terminals@ == connection_ends(state@, keys@.take(i as int)),
            decreases keys@.len() - i,
        {
            let key = keys[i];
            proof {
                assert(keys@.contains(key));
                assert(state@.connections.dom().contains(key));
                assert(keys@.take(i + 1).drop_last() =~= keys@.take(i as int));
            }
            if let Some(output) = state.connections.get(&key) {
                terminals.push(TerminalId::Input(InputId(ModuleId(key.0), key.1)));
                terminals.push(TerminalId::Output(*output));
            }
            i += 1;
        }
        assert(keys@.take(keys@.len() as int) =~= keys@);
        if let MouseMode::Connect(terminal, Some(_)) = self.mouse {
            terminals.push(terminal);
        }
        terminals
    }

    /// The middle of a terminal on the page, if it is there.
    pub fn screen_coords_for_terminal(
        &self,
        state: &State,
        offsets: &TerminalOffsets,
        terminal: TerminalId,
    ) -> (coords: Option<Coords>)
        requires
            point_fits(self@, state@, offsets@, terminal),
        ensures
            coords == terminal_point(self@, state@, offsets@, terminal),
    {
        match state.geometry.get(&terminal.module_id().0) {
            Some(geometry) => if self.terminal_node(state, terminal).is_some() {
                match offsets.offset(terminal) {
                    Some(offset) => {
                        let center = Coords { x: TERMINAL_CENTER, y: TERMINAL_CENTER };
                        let terminal_coords = offset.add(center);
                        Some(geometry.position.add(terminal_coords))
                    },
                    None => None,
                }
            } else {
                None
            },
            None => None,
        }
    }

    /// Whether `screen_coords_for_terminal` can work out where the terminal is.
    pub fn can_locate(
        &self,
        state: &State,
        offsets: &TerminalOffsets,
        terminal: TerminalId,
    ) -> (can: bool)
        ensures
            can == point_fits(self@, state@, offsets@, terminal),
    {
        match state.geometry.get(&terminal.module_id().0) {
            Some(geometry) => if self.terminal_node(state, terminal).is_some() {
                match offsets.offset(terminal) {
                    Some(offset) => {
                        let center = Coords { x: TERMINAL_CENTER, y: TERMINAL_CENTER };
                        match offset.checked_add(center) {
                            Some(terminal_coords) => geometry.position.checked_add(
                                terminal_coords,
                            ).is_some(),
                            None => false,
                        }
                    },
                    None => true,
                }
            } else {
                true
            },
            None => true,
        }
    }

    /// The lines to be drawn, each from an output to an input.
    fn lines(&self, state: &State, offsets: &TerminalOffsets) -> (lines: Vec<(Coords, Coords)>)
        requires
            lines_fit(self@, state@, offsets@),
        ensures
            lines@ == all_lines(self@, state@, offsets@),
    {
        let keys = keys_in_order(&state.connections);
        let mut lines: Vec<(Coords, Coords)> = Vec::new();
        let mut i: usize = 0;
        while i < keys.len()
            invariant
                i <= keys@.len(),
                lists(keys@, state@.connections.dom(), key_order()),
                lines_fit(self@, state@, offsets@),
                lines@ == connection_lines(self@, state@, offsets@, keys@.take(i as int)),
            decreases keys@.len() - i,
        {
            let key = keys[i];
            proof {
                assert(keys@.contains(key));
                assert(state@.connections.dom().contains(key));
                assert(state@.connections.contains_key(key));
                assert(keys@.take(i + 1).drop_last() =~= keys@.take(i as int));
            }
            if let Some(output) = state.connections.get(&key) {
                let input = InputId(ModuleId(key.0), key.1);
                if let Some(input_coords) = self.screen_coords_for_terminal(
                    state,
                    offsets,
                    TerminalId::Input(input),
                ) {
                    if let Some(output_coords) = self.screen_coords_for_terminal(
                        state,
                        offsets,
                        TerminalId::Output(*output),
                    ) {
                        lines.push((output_coords, input_coords));
                    }
                }
            }
            i += 1;
        }
        assert(keys@.take(keys@.len() as int) =~= keys@);
        if let MouseMode::Connect(terminal, Some(to_coords)) = self.mouse {
            if let Some(start_coords) = self.screen_coords_for_terminal(state, offsets, terminal) {
                let pair = match terminal {
                    TerminalId::Input(_) => (to_coords, start_coords),
                    TerminalId::Output(_) => (start_coords, to_coords),
                };
                lines.push(pair);
            }
        }
        lines
    }

    /// Whether `scene` can work out where every line ends.
    pub fn can_show(&self, state: &State, offsets: &TerminalOffsets) -> (can: bool)
        ensures
            can == lines_fit(self@, state@, offsets@),
    {
        let keys = keys_in_order(&state.connections);
        let mut i: usize = 0;
        while i < keys.len()
            invariant
                i <= keys@.len(),
                lists(keys@, state@.connections.dom(), key_order()),
                forall|key: (usize, usize)| #[trigger]
                    keys@.take(i as int).contains(key) ==> connection_fits(
                        self@,
                        state@,
                        offsets@,
                        key,
                    ),
            decreases keys@.len() - i,
        {
            let key = keys[i];
            proof {
                assert(keys@.contains(key));
                assert(state@.connections.dom().contains(key));
                assert(state@.connections.contains_key(key));
                lemma_take_contains(keys@, i as int);
            }
            if let Some(output) = state.connections.get(&key) {
                let input = TerminalId::Input(InputId(ModuleId(key.0), key.1));
                if !self.can_locate(state, offsets, input) {
                    return false;
                }
                let found = self.terminal_node(state, input).is_some() && offsets.offset(
                    input,
                ).is_some();
                if found && !self.can_locate(state, offsets, TerminalId::Output(*output)) {
                    return false;
                }
            }
            i += 1;
        }
        proof {
            assert(keys@.take(keys@.len() as int) =~= keys@);
            assert forall|key: (usize, usize)| #[trigger]
                state@.connections.contains_key(key) implies connection_fits(
                self@,
                state@,
                offsets@,
                key,
            ) by {
                assert(state@.connections.dom().contains(key));
                assert(keys@.contains(key));
            }
        }
        match self.mouse {
            MouseMode::Connect(terminal, Some(_)) => self.can_locate(state, offsets, terminal),
            _ => true,
        }
    }

    /// The windows to be shown.
    fn windows(&self, state: &State) -> (windows: Vec<WindowProps>)
        ensures
            windows@.map_values(|props: WindowProps| props@) == shown_windows(self@, state@),
    {
        let ids = ids_in_order(&self.window_refs);
        let ghost content = |id: usize| window_content(self@, state@, id);
        let ghost shown = showable(state@);
        let mut windows: Vec<WindowProps> = Vec::new();
        proof {
            assert(self.window_refs@.dom() =~= self@.windows.dom());
        }
        let mut i: usize = 0;
        while i < ids.len()
            invariant
                i <= ids@.len(),
                lists(ids@, self@.windows.dom(), id_order()),
                content == (|id: usize| window_content(self@, state@, id)),
                shown == showable(state@),
                windows@.map_values(|props: WindowProps| props@) == ids@.take(i as int).filter(
                    shown,
                ).map_values(content),
            decreases ids@.len() - i,
        {
            let id = ids[i];
            let ghost before = windows@;
            proof {
                assert(ids@.contains(id));
                assert(self@.windows.dom().contains(id));
                assert(self.window_refs@.contains_key(id));
                lemma_filter_step(ids@, shown, i as int);
            }
            if let Some(refs) = self.window_refs.get(&id) {
                if let Some(module) = state.modules.get(&id) {
                    if let Some(geometry) = state.geometry.get(&id) {
                        let indication = match state.indications.get(&id) {
                            Some(indication) => Some(indication.clone()),
                            None => None,
                        };
                        let props = WindowProps {
                            id: ModuleId(id),
                            module: module.clone(),
                            geometry: *geometry,
                            name: String::from_str(module.name()),
                            refs: refs.clone(),
                            indication,
                        };
                        assert(props@ =~= content(id));
                        windows.push(props);
                        assert(windows@.map_values(|props: WindowProps| props@)
                            =~= before.map_values(|props: WindowProps| props@).push(props@));
                        assert(ids@.take(i as int).filter(shown).push(id).map_values(content)
                            =~= ids@.take(i as int).filter(shown).map_values(content).push(
                            content(id),
                        ));
                    }
                }
            }
            i += 1;
        }
        assert(ids@.take(ids@.len() as int) =~= ids@);
        windows
    }

    /// The menu of modules, while it is open.
    pub fn view_context_menu(&self) -> (menu: Option<ContextMenu>)
        ensures
            menu_shows(menu, self@.mouse),
    {
        match self.mouse {
            MouseMode::ContextMenu(coords) => Some(ContextMenu::at(coords)),
            _ => None,
        }
    }

    /// All that there is to see.
    pub fn scene(&self, state: &State, offsets: &TerminalOffsets) -> (scene: Scene)
        requires
            lines_fit(self@, state@, offsets@),
        ensures
            scene.shows(self@, state@, offsets@),
    {
        Scene {
            windows: self.windows(state),
            connections: ConnectionsProps {
                width: CANVAS_SIZE,
                height: CANVAS_SIZE,
                connections: self.lines(state, offsets),
            },
            menu: self.view_context_menu(),
        }
    }
}

/// The messages that take out each of the connections to the given inputs.
fn deletions(inputs: &Vec<InputId>) -> (messages: Vec<ClientMessage>)
    ensures
        messages@ == crate::transition::deletions(inputs@),
{
    let mut messages: Vec<ClientMessage> = Vec::new();
    for i in 0..inputs.len()
        invariant
            messages@ == crate::transition::deletions(inputs@.take(i as int)),
    {
        messages.push(ClientMessage::DeleteConnection(inputs[i]));
        assert(inputs@.take(i + 1) =~= inputs@.take(i as int).push(inputs@[i as int]));
    }
    assert(inputs@.take(inputs@.len() as int) =~= inputs@);
    messages
}

} // verus!
