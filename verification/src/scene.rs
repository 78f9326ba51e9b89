//! What there is to see of the workspace.

use std::collections::BTreeMap;
use vstd::prelude::*;

use crate::connections::{ConnectionsProps, ConnectionsPropsView};
use crate::message::{MouseMode, WorkspaceMsg};
use crate::order::{ascending_ids, ascending_keys};
use crate::protocol::{
    Coords, FmSineParams, Frequency, ModuleId, ModuleParams, OutputDeviceParams,
    SineGeneratorParams, TerminalId,
};
use crate::state::{input_of_key, StateView};
use crate::transition::WorkspaceView;
use crate::window::{WindowProps, WindowPropsView};

verus! {

/// Where the terminals stand in their windows, as far as they are on the page.
#[derive(Debug, PartialEq, Eq)]
pub struct TerminalOffsets {
    pub inputs: BTreeMap<(usize, usize), Coords>,
    pub outputs: BTreeMap<(usize, usize), Coords>,
}

/// Where the terminals stand in their windows, as far as they are on the page.
#[verifier::ext_equal]
pub struct TerminalOffsetsView {
    pub inputs: Map<(usize, usize), Coords>,
    pub outputs: Map<(usize, usize), Coords>,
}

impl View for TerminalOffsets {
    type V = TerminalOffsetsView;

    open spec fn view(&self) -> TerminalOffsetsView {
        TerminalOffsetsView { inputs: self.inputs@, outputs: self.outputs@ }
    }
}

impl TerminalOffsetsView {
    /// Where a terminal's element begins, seen from the corner of its window.
    pub open spec fn offset(self, terminal: TerminalId) -> Option<Coords> {
        match terminal {
            TerminalId::Input(input) => if self.inputs.contains_key(input.key()) {
                Some(self.inputs[input.key()])
            } else {
                None
            },
            TerminalId::Output(output) => if self.outputs.contains_key(output.key()) {
                Some(self.outputs[output.key()])
            } else {
                None
            },
        }
    }

    /// The offsets with that of one terminal set.
    pub open spec fn with(self, terminal: TerminalId, offset: Coords) -> TerminalOffsetsView {
        match terminal {
            TerminalId::Input(input) => TerminalOffsetsView {
                inputs: self.inputs.insert(input.key(), offset),
                ..self
            },
            TerminalId::Output(output) => TerminalOffsetsView {
                outputs: self.outputs.insert(output.key(), offset),
                ..self
            },
        }
    }
}

impl TerminalOffsets {
    /// No terminal is on the page.
    pub fn new() -> (offsets: TerminalOffsets)
        ensures
            offsets@ == (TerminalOffsetsView { inputs: Map::empty(), outputs: Map::empty() }),
    {
        TerminalOffsets { inputs: BTreeMap::new(), outputs: BTreeMap::new() }
    }

    /// Notes where a terminal's element begins, seen from the corner of its window.
    pub fn record(&mut self, terminal: TerminalId, offset: Coords)
        ensures
            final(self)@ == old(self)@.with(terminal, offset),
    {
        match terminal {
            TerminalId::Input(input) => {
                self.inputs.insert(input.key(), offset);
            },
            TerminalId::Output(output) => {
                self.outputs.insert(output.key(), offset);
            },
        }
    }

    /// Where a terminal's element begins, seen from the corner of its window.
    pub fn offset(&self, terminal: TerminalId) -> (offset: Option<Coords>)
        ensures
            offset == self@.offset(terminal),
    {
        let found = match terminal {
            TerminalId::Input(input) => self.inputs.get(&input.key()),
            TerminalId::Output(output) => self.outputs.get(&output.key()),
        };
        match found {
            Some(offset) => Some(*offset),
            None => None,
        }
    }
}

/// How far the middle of a terminal's element is from where it begins, both ways.
pub const TERMINAL_CENTER: i32 = 9;

/// The way from where a terminal's element begins to its middle.
pub open spec fn terminal_center() -> Coords {
    Coords { x: TERMINAL_CENTER, y: TERMINAL_CENTER }
}

/// The width and height of the canvas for the connections.
pub const CANVAS_SIZE: usize = 2000;

/// The reference to a terminal's element, if it is in a window that is placed somewhere.
pub open spec fn terminal_node(
    w: WorkspaceView,
    s: StateView,
    terminal: TerminalId,
) -> Option<yew::NodeRef> {
    let id = terminal.module_id().0;
    if s.geometry.contains_key(id) && w.windows.contains_key(id) {
        w.windows[id].node(terminal)
    } else {
        None
    }
}

/// Whether a terminal is on the page.
pub open spec fn on_page(
    w: WorkspaceView,
    s: StateView,
    offsets: TerminalOffsetsView,
    terminal: TerminalId,
) -> bool {
    terminal_node(w, s, terminal) is Some && offsets.offset(terminal) is Some
}

/// The middle of a terminal on the page, if it is there.
pub open spec fn terminal_point(
    w: WorkspaceView,
    s: StateView,
    offsets: TerminalOffsetsView,
    terminal: TerminalId,
) -> Option<Coords> {
    if on_page(w, s, offsets, terminal) {
        Some(
            s.geometry[terminal.module_id().0].position.plus(
                offsets.offset(terminal).unwrap().plus(terminal_center()),
            ),
        )
    } else {
        None
    }
}

/// Whether the middle of a terminal keeps within the numbers that coordinates can hold.
pub open spec fn point_fits(
    w: WorkspaceView,
    s: StateView,
    offsets: TerminalOffsetsView,
    terminal: TerminalId,
) -> bool {
    on_page(w, s, offsets, terminal) ==> {
        let offset = offsets.offset(terminal).unwrap();
        &&& offset.sum_fits(terminal_center())
        &&& s.geometry[terminal.module_id().0].position.sum_fits(offset.plus(terminal_center()))
    }
}

/// The line for a connection, from its output to its input, if both are on the page.
pub open spec fn connection_line(
    w: WorkspaceView,
    s: StateView,
    offsets: TerminalOffsetsView,
    key: (usize, usize),
) -> Option<(Coords, Coords)> {
    let input = terminal_point(w, s, offsets, TerminalId::Input(input_of_key(key)));
    let output = terminal_point(w, s, offsets, TerminalId::Output(s.connections[key]));
    match (output, input) {
        (Some(from), Some(to)) => Some((from, to)),
        _ => None,
    }
}

/// The lines for connections, one after the other.
pub open spec fn connection_lines(
    w: WorkspaceView,
    s: StateView,
    offsets: TerminalOffsetsView,
    keys: Seq<(usize, usize)>,
) -> Seq<(Coords, Coords)>
    decreases keys.len(),
{
    if keys.len() == 0 {
        seq![]
    } else {
        let lines = connection_lines(w, s, offsets, keys.drop_last());
        match connection_line(w, s, offsets, keys.last()) {
            Some(line) => lines.push(line),
            None => lines,
        }
    }
}

/// The line for the connection being drawn, if there is one: between the pointer and the terminal
/// that it was begun at, on the side that the terminal is of.
pub open spec fn pending_line(
    w: WorkspaceView,
    s: StateView,
    offsets: TerminalOffsetsView,
) -> Option<(Coords, Coords)> {
    match w.mouse {
        MouseMode::Connect(terminal, Some(to)) => match terminal_point(w, s, offsets, terminal) {
            Some(from) => match terminal {
                TerminalId::Input(_) => Some((to, from)),
                TerminalId::Output(_) => Some((from, to)),
            },
            None => None,
        },
        _ => None,
    }
}

/// All lines to be drawn: those of the connections, by the order of their inputs, then the one
/// being drawn.
pub open spec fn all_lines(
    w: WorkspaceView,
    s: StateView,
    offsets: TerminalOffsetsView,
) -> Seq<(Coords, Coords)> {
    let lines = connection_lines(w, s, offsets, ascending_keys(s.connections.dom()));
    match pending_line(w, s, offsets) {
        Some(line) => lines.push(line),
        None => lines,
    }
}

/// Whether the ends of a connection's line keep within the numbers that coordinates can hold.
pub open spec fn connection_fits(
    w: WorkspaceView,
    s: StateView,
    offsets: TerminalOffsetsView,
    key: (usize, usize),
) -> bool {
    let input = TerminalId::Input(input_of_key(key));
    &&& point_fits(w, s, offsets, input)
    &&& on_page(w, s, offsets, input) ==> point_fits(
        w,
        s,
        offsets,
        TerminalId::Output(s.connections[key]),
    )
}

/// Whether the ends of all lines keep within the numbers that coordinates can hold.
pub open spec fn lines_fit(w: WorkspaceView, s: StateView, offsets: TerminalOffsetsView) -> bool {
    &&& forall|key: (usize, usize)| #[trigger]
        s.connections.contains_key(key) ==> connection_fits(w, s, offsets, key)
    &&& match w.mouse {
        MouseMode::Connect(terminal, Some(_)) => point_fits(w, s, offsets, terminal),
        _ => true,
    }
}

/// The terminals at both ends of connections, one connection after the other.
pub open spec fn connection_ends(
    s: StateView,
    keys: Seq<(usize, usize)>,
) -> Seq<TerminalId>
    decreases keys.len(),
{
    if keys.len() == 0 {
        seq![]
    } else {
        connection_ends(s, keys.drop_last()).push(
            TerminalId::Input(input_of_key(keys.last())),
        ).push(TerminalId::Output(s.connections[keys.last()]))
    }
}

/// The terminals that lines are drawn between, as far as they are on the page.
pub open spec fn line_ends(w: WorkspaceView, s: StateView) -> Seq<TerminalId> {
    let ends = connection_ends(s, ascending_keys(s.connections.dom()));
    match w.mouse {
        MouseMode::Connect(terminal, Some(_)) => ends.push(terminal),
        _ => ends,
    }
}

/// Whether a window can be shown: its module is known, and where it stands.
pub open spec fn showable(s: StateView) -> spec_fn(usize) -> bool {
    |id: usize| s.modules.contains_key(id) && s.geometry.contains_key(id)
}

/// What the window of a module shows.
pub open spec fn window_content(w: WorkspaceView, s: StateView, id: usize) -> WindowPropsView {
    WindowPropsView {
        id: ModuleId(id),
        module: s.modules[id],
        geometry: s.geometry[id],
        name: s.modules[id].spec_name(),
        refs: w.windows[id],
        indication: if s.indications.contains_key(id) {
            Some(s.indications[id]@)
        } else {
            None
        },
    }
}

/// The windows to be shown, by the numbers of their modules.
pub open spec fn shown_windows(w: WorkspaceView, s: StateView) -> Seq<WindowPropsView> {
    ascending_ids(w.windows.dom()).filter(showable(s)).map_values(
        |id: usize| window_content(w, s, id),
    )
}

/// An entry of the menu of modules.
#[derive(Debug)]
pub struct MenuItem {
    pub label: &'static str,
    pub params: ModuleParams,
}

/// The label of an entry, and the module that it adds.
#[verifier::ext_equal]
pub struct MenuItemView {
    pub label: Seq<char>,
    pub params: ModuleParams,
}

impl View for MenuItem {
    type V = MenuItemView;

    open spec fn view(&self) -> MenuItemView {
        MenuItemView { label: self.label@, params: self.params }
    }
}

/// The menu of modules to be added, and where it is open.
#[derive(Debug)]
pub struct ContextMenu {
    pub position: Coords,
    pub items: Vec<MenuItem>,
}

/// The frequency of a new sine generator: 100 Hz.
pub const SINE_FREQ: u64 = 0x4059_0000_0000_0000;

/// The lower frequency of a new frequency-modulated sine generator: 90 Hz.
pub const FM_FREQ_LO: u64 = 0x4056_8000_0000_0000;

/// The upper frequency of a new frequency-modulated sine generator: 110 Hz.
pub const FM_FREQ_HI: u64 = 0x405b_8000_0000_0000;

/// The entries of the menu.
pub open spec fn menu_items() -> Seq<MenuItemView> {
    seq![
        MenuItemView {
            label: "Sine Generator"@,
            params: ModuleParams::SineGenerator(
                SineGeneratorParams { freq: Frequency(SINE_FREQ) },
            ),
        },
        MenuItemView { label: "Mixer (2 channel)"@, params: ModuleParams::Mixer2ch(()) },
        MenuItemView {
            label: "Output Device"@,
            params: ModuleParams::OutputDevice(OutputDeviceParams { device: None }),
        },
        MenuItemView {
            label: "FM Sine"@,
            params: ModuleParams::FmSine(
                FmSineParams { freq_lo: Frequency(FM_FREQ_LO), freq_hi: Frequency(FM_FREQ_HI) },
            ),
        },
    ]
}

impl ContextMenu {
    /// What the entries show and add.
    pub open spec fn entries(self) -> Seq<MenuItemView> {
        self.items@.map_values(|item: MenuItem| item@)
    }

    /// The menu, open at the given point.
    pub fn at(position: Coords) -> (menu: ContextMenu)
        ensures
            menu.position == position,
            menu.entries() == menu_items(),
    {
        let mut items: Vec<MenuItem> = Vec::new();
        items.push(
            MenuItem {
                label: "Sine Generator",
                params: ModuleParams::SineGenerator(
                    SineGeneratorParams { freq: Frequency(SINE_FREQ) },
                ),
            },
        );
        items.push(
            MenuItem { label: "Mixer (2 channel)", params: ModuleParams::Mixer2ch(()) },
        );
        items.push(
            MenuItem {
                label: "Output Device",
                params: ModuleParams::OutputDevice(OutputDeviceParams { device: None }),
            },
        );
        items.push(
            MenuItem {
                label: "FM Sine",
                params: ModuleParams::FmSine(
                    FmSineParams {
                        freq_lo: Frequency(FM_FREQ_LO),
                        freq_hi: Frequency(FM_FREQ_HI),
                    },
                ),
            },
        );
        ContextMenu { position, items }
    }

    /// The style that puts the menu where it is open.
    pub fn style(&self) -> (style: String)
        ensures
            style@ == crate::text::position_style_text(self.position),
    {
        crate::text::position_style(self.position)
    }

    /// What choosing an entry asks for: such a module, where the menu is open.
    pub fn choose_item(&self, index: usize) -> (msg: WorkspaceMsg)
        requires
            index < self.items@.len(),
        ensures
            msg == WorkspaceMsg::CreateModule(self.items@[index as int].params, self.position),
    {
        WorkspaceMsg::CreateModule(self.items[index].params.clone(), self.position)
    }
}

/// All that there is to see.
pub struct Scene {
    pub windows: Vec<WindowProps>,
    pub connections: ConnectionsProps,
    pub menu: Option<ContextMenu>,
}

impl Scene {
    /// Whether the scene shows the workspace and the state as they are.
    pub open spec fn shows(
        self,
        w: WorkspaceView,
        s: StateView,
        offsets: TerminalOffsetsView,
    ) -> bool {
        &&& self.windows@.map_values(|props: WindowProps| props@) == shown_windows(w, s)
        &&& self.connections@ == (ConnectionsPropsView {
            width: CANVAS_SIZE,
            height: CANVAS_SIZE,
            connections: all_lines(w, s, offsets),
        })
        &&& menu_shows(self.menu, w.mouse)
    }
}

/// Whether the menu is open just where and when the pointer has opened it.
pub open spec fn menu_shows(menu: Option<ContextMenu>, mouse: MouseMode) -> bool {
    match mouse {
        MouseMode::ContextMenu(position) => {
            &&& menu is Some
            &&& menu.unwrap().position == position
            &&& menu.unwrap().entries() == menu_items()
        },
        _ => menu is None,
    }
}

} // verus!
