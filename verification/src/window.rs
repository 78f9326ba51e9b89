//! The window of a module.

use vstd::prelude::*;

use crate::message::{MouseEvent, WorkspaceMsg};
use crate::node::share_node;
use crate::panels::{FmSineProps, OutputDeviceProps, SineGeneratorProps};
use crate::protocol::{
    Indication, IndicationView, InputId, ModuleId, ModuleParams, OutputId, TerminalId,
    WindowGeometry,
};
use crate::text::window_style;
use crate::window_ref::{WindowRef, WindowRefView};

verus! {

/// What happens in a window.
#[derive(Debug, PartialEq, Eq)]
pub enum WindowMsg {
    DragStart(MouseEvent),
    TerminalMouseDown(MouseEvent, TerminalId),
    Delete,
    UpdateParams(ModuleParams),
}

/// What a window shows.
#[derive(Debug)]
pub struct WindowProps {
    pub id: ModuleId,
    pub module: ModuleParams,
    pub geometry: WindowGeometry,
    pub name: String,
    pub refs: WindowRef,
    pub indication: Option<Indication>,
}

/// What a window shows.
#[verifier::ext_equal]
pub struct WindowPropsView {
    pub id: ModuleId,
    pub module: ModuleParams,
    pub geometry: WindowGeometry,
    pub name: Seq<char>,
    pub refs: WindowRefView,
    pub indication: Option<IndicationView>,
}

impl View for WindowProps {
    type V = WindowPropsView;

    open spec fn view(&self) -> WindowPropsView {
        WindowPropsView {
            id: self.id,
            module: self.module,
            geometry: self.geometry,
            name: self.name@,
            refs: self.refs@,
            indication: match self.indication {
                Some(indication) => Some(indication@),
                None => None,
            },
        }
    }
}

impl Clone for WindowProps {
    fn clone(&self) -> (copy: Self)
        ensures
            copy@ == self@,
    {
        WindowProps {
            id: self.id,
            module: self.module.clone(),
            geometry: self.geometry,
            name: self.name.clone(),
            refs: self.refs.clone(),
            indication: match &self.indication {
                Some(indication) => Some(indication.clone()),
                None => None,
            },
        }
    }
}

/// Something to be done outside of the window.
#[derive(Debug, PartialEq, Eq)]
pub enum WindowEffect {
    /// Keep the elements around from handling the event.
    StopPropagation,
    /// Send the workspace a message.
    Send(WorkspaceMsg),
}

/// What comes of a message to a window.
#[derive(Debug, PartialEq, Eq)]
pub struct WindowUpdate {
    /// Whether the window has to be shown anew.
    pub should_render: bool,
    /// What is to be done, in this order.
    pub effects: Vec<WindowEffect>,
}

/// What the window of the given module does about a message.
pub open spec fn window_effects(id: ModuleId, msg: WindowMsg) -> Seq<WindowEffect> {
    match msg {
        WindowMsg::DragStart(ev) => seq![
            WindowEffect::StopPropagation,
            WindowEffect::Send(WorkspaceMsg::DragStart(id, ev)),
        ],
        WindowMsg::TerminalMouseDown(ev, terminal) => seq![
            WindowEffect::Send(
                if ev.right_button() {
                    WorkspaceMsg::ClearTerminal(terminal)
                } else {
                    WorkspaceMsg::SelectTerminal(terminal)
                },
            ),
            WindowEffect::StopPropagation,
        ],
        WindowMsg::Delete => seq![WindowEffect::Send(WorkspaceMsg::DeleteWindow(id))],
        WindowMsg::UpdateParams(params) => seq![
            WindowEffect::Send(WorkspaceMsg::UpdateModuleParams(id, params)),
        ],
    }
}

/// The panel in the middle of a window.
#[derive(Debug, PartialEq, Eq)]
pub enum ParamsPanel {
    Empty,
    SineGenerator(SineGeneratorProps),
    OutputDevice(OutputDeviceProps),
    FmSine(FmSineProps),
}

/// What a panel is given.
#[verifier::ext_equal]
pub enum ParamsPanelView {
    Empty,
    SineGenerator(SineGeneratorProps),
    OutputDevice(crate::panels::OutputDevicePropsView),
    FmSine(FmSineProps),
}

impl View for ParamsPanel {
    type V = ParamsPanelView;

    open spec fn view(&self) -> ParamsPanelView {
        match *self {
            ParamsPanel::Empty => ParamsPanelView::Empty,
            ParamsPanel::SineGenerator(props) => ParamsPanelView::SineGenerator(props),
            ParamsPanel::OutputDevice(props) => ParamsPanelView::OutputDevice(props@),
            ParamsPanel::FmSine(props) => ParamsPanelView::FmSine(props),
        }
    }
}

impl WindowPropsView {
    /// The inputs, each with the reference to its element.
    pub open spec fn inputs(self) -> Seq<(TerminalId, yew::NodeRef)> {
        self.refs.inputs.map(
            |index: int, node: yew::NodeRef|
                (TerminalId::Input(InputId(self.id, index as usize)), node),
        )
    }

    /// The outputs, each with the reference to its element.
    pub open spec fn outputs(self) -> Seq<(TerminalId, yew::NodeRef)> {
        self.refs.outputs.map(
            |index: int, node: yew::NodeRef|
                (TerminalId::Output(OutputId(self.id, index as usize)), node),
        )
    }

    /// The panel for this kind of module. An output device has none until its audio devices have
    /// been reported on, a mixer never has one.
    pub open spec fn panel(self) -> ParamsPanelView {
        match self.module {
            ModuleParams::SineGenerator(params) => ParamsPanelView::SineGenerator(
                SineGeneratorProps { id: self.id, params },
            ),
            ModuleParams::Mixer2ch(_) => ParamsPanelView::Empty,
            ModuleParams::OutputDevice(params) => match self.indication {
                Some(IndicationView::OutputDevice(devices)) => ParamsPanelView::OutputDevice(
                    crate::panels::OutputDevicePropsView {
                        id: self.id,
                        params,
                        indication: Some(devices),
                    },
                ),
                None => ParamsPanelView::Empty,
            },
            ModuleParams::FmSine(params) => ParamsPanelView::FmSine(
                FmSineProps { id: self.id, params },
            ),
        }
    }
}

/// The window of a module.
#[derive(Debug)]
pub struct Window {
    props: WindowProps,
}

impl View for Window {
    type V = WindowPropsView;

    closed spec fn view(&self) -> WindowPropsView {
        self.props@
    }
}

impl Window {
    pub fn create(props: WindowProps) -> (window: Window)
        ensures
            window@ == props@,
    {
        Window { props }
    }

    pub fn props(&self) -> (props: &WindowProps)
        ensures
            props@ == self@,
    {
        &self.props
    }

    /// Handles a message: all of them are passed on to the workspace.
    pub fn update(&mut self, msg: WindowMsg) -> (update: WindowUpdate)
        ensures
            *final(self) == *old(self),
            !update.should_render,
            update.effects@ == window_effects(old(self)@.id, msg),
    {
        let mut effects: Vec<WindowEffect> = Vec::new();
        match msg {
            WindowMsg::DragStart(ev) => {
                effects.push(WindowEffect::StopPropagation);
                effects.push(WindowEffect::Send(WorkspaceMsg::DragStart(self.props.id, ev)));
            },
            WindowMsg::TerminalMouseDown(ev, terminal_id) => {
                let msg = if ev.right_button() {
                    WorkspaceMsg::ClearTerminal(terminal_id)
                } else {
                    WorkspaceMsg::SelectTerminal(terminal_id)
                };
                effects.push(WindowEffect::Send(msg));
                effects.push(WindowEffect::StopPropagation);
            },
            WindowMsg::Delete => {
                effects.push(WindowEffect::Send(WorkspaceMsg::DeleteWindow(self.props.id)));
            },
            WindowMsg::UpdateParams(params) => {
                effects.push(
                    WindowEffect::Send(WorkspaceMsg::UpdateModuleParams(self.props.id, params)),
                );
            },
        }
        WindowUpdate { should_render: false, effects }
    }

    /// Takes on something else to show.
    pub fn change(&mut self, props: WindowProps) -> (should_render: bool)
        ensures
            final(self)@ == props@,
            should_render,
    {
        self.props = props;
        true
    }

    /// The style that puts the window where it stands.
    pub fn style(&self) -> (style: String)
        ensures
            style@ == crate::text::window_style_text(self@.geometry),
    {
        window_style(self.props.geometry)
    }

    /// The inputs to show, each with the reference to its element.
    pub fn view_inputs(&self) -> (inputs: Vec<(TerminalId, yew::NodeRef)>)
        ensures
            inputs@ == self@.inputs(),
    {
        let nodes = &self.props.refs.inputs;
        let mut inputs: Vec<(TerminalId, yew::NodeRef)> = Vec::new();
        for index in 0..nodes.len()
            invariant
                nodes@ == self@.refs.inputs,
                self.props.id == self@.id,
                inputs@ == self@.inputs().take(index as int),
        {
            inputs.push(
                (TerminalId::Input(InputId(self.props.id, index)), share_node(&nodes[index])),
            );
            assert(self@.inputs().take(index + 1) =~= self@.inputs().take(index as int).push(
                self@.inputs()[index as int],
            ));
        }
        assert(self@.inputs().take(nodes@.len() as int) =~= self@.inputs());
        inputs
    }

    /// The outputs to show, each with the reference to its element.
    pub fn view_outputs(&self) -> (outputs: Vec<(TerminalId, yew::NodeRef)>)
        ensures
            outputs@ == self@.outputs(),
    {
        let nodes = &self.props.refs.outputs;
        let mut outputs: Vec<(TerminalId, yew::NodeRef)> = Vec::new();
        for index in 0..nodes.len()
            invariant
                nodes@ == self@.refs.outputs,
                self.props.id == self@.id,
                outputs@ == self@.outputs().take(index as int),
        {
            outputs.push(
                (TerminalId::Output(OutputId(self.props.id, index)), share_node(&nodes[index])),
            );
            assert(self@.outputs().take(index + 1) =~= self@.outputs().take(index as int).push(
                self@.outputs()[index as int],
            ));
        }
        assert(self@.outputs().take(nodes@.len() as int) =~= self@.outputs());
        outputs
    }

    /// The panel to show.
    pub fn view_params(&self) -> (panel: ParamsPanel)
        ensures
            panel@ == self@.panel(),
    {
        match &self.props.module {
            ModuleParams::SineGenerator(params) => ParamsPanel::SineGenerator(
                SineGeneratorProps { id: self.props.id, params: *params },
            ),
            ModuleParams::Mixer2ch(_) => ParamsPanel::Empty,
            ModuleParams::OutputDevice(params) => match &self.props.indication {
                Some(Indication::OutputDevice(indication)) => ParamsPanel::OutputDevice(
                    OutputDeviceProps {
                        id: self.props.id,
                        params: params.clone(),
                        indication: Some(indication.clone()),
                    },
                ),
                None => ParamsPanel::Empty,
            },
            ModuleParams::FmSine(params) => ParamsPanel::FmSine(
                FmSineProps { id: self.props.id, params: *params },
            ),
        }
    }
}

/// A window shows one input for each reference to one, in their order, numbered from zero, and the
/// outputs likewise.
pub proof fn law_windows_show_their_terminals(
    window: Window,
    inputs: Vec<(TerminalId, yew::NodeRef)>,
    outputs: Vec<(TerminalId, yew::NodeRef)>,
)
    requires
        call_ensures(Window::view_inputs, (&window,), inputs),
        call_ensures(Window::view_outputs, (&window,), outputs),
        window@.refs.inputs.len() <= usize::MAX,
        window@.refs.outputs.len() <= usize::MAX,
    ensures
        inputs@.len() == window@.refs.inputs.len(),
        outputs@.len() == window@.refs.outputs.len(),
        forall|i: int|
            0 <= i < inputs@.len() ==> {
                &&& (#[trigger] inputs@[i]).0 matches TerminalId::Input(input)
                &&& input.0 == window@.id
                &&& input.1 == i
                &&& inputs@[i].1 == window@.refs.inputs[i]
            },
        forall|i: int|
            0 <= i < outputs@.len() ==> {
                &&& (#[trigger] outputs@[i]).0 matches TerminalId::Output(output)
                &&& output.0 == window@.id
                &&& output.1 == i
                &&& outputs@[i].1 == window@.refs.outputs[i]
            },
{
}

/// The panel of a window is for its own module and shows its settings, with all that has been
/// reported of the devices. A mixer has none, and neither has an output device of which nothing has
/// been reported.
pub proof fn law_windows_show_their_settings(window: Window, panel: ParamsPanel)
    requires
        call_ensures(Window::view_params, (&window,), panel),
    ensures
        match window@.module {
            ModuleParams::SineGenerator(params) => {
                &&& panel matches ParamsPanel::SineGenerator(props)
                &&& props.id == window@.id
                &&& props.params == params
            },
            ModuleParams::FmSine(params) => {
                &&& panel matches ParamsPanel::FmSine(props)
                &&& props.id == window@.id
                &&& props.params == params
            },
            ModuleParams::Mixer2ch(_) => panel is Empty,
            ModuleParams::OutputDevice(params) => match window@.indication {
                None => panel is Empty,
                Some(IndicationView::OutputDevice(reported)) => {
                    &&& panel matches ParamsPanel::OutputDevice(props)
                    &&& props.id == window@.id
                    &&& props.params == params
                    &&& props.indication matches Some(indication)
                    &&& match indication.devices {
                        Some(devices) => reported == Some(devices@),
                        None => reported is None,
                    }
                },
            },
        },
{
}

/// Whether what a window holds is what it was given, down to the devices reported.
pub open spec fn holds(window: WindowPropsView, props: WindowProps) -> bool {
    &&& window.id == props.id
    &&& window.module == props.module
    &&& window.geometry == props.geometry
    &&& window.name == props.name@
    &&& window.refs.module == props.refs.module
    &&& window.refs.inputs == props.refs.inputs@
    &&& window.refs.outputs == props.refs.outputs@
    &&& match props.indication {
        Some(Indication::OutputDevice(indication)) => {
            &&& window.indication matches Some(IndicationView::OutputDevice(reported))
            &&& match indication.devices {
                Some(devices) => reported == Some(devices@),
                None => reported is None,
            }
        },
        None => window.indication is None,
    }
}

/// A window holds what it was made of or last given.
pub proof fn law_windows_hold_what_they_are_given(
    props: WindowProps,
    created: Window,
    changed: &mut Window,
    render: bool,
    kept: &WindowProps,
)
    requires
        call_ensures(Window::create, (props,), created),
        call_ensures(Window::change, (changed, props), render),
        call_ensures(Window::props, (&created,), kept),
    ensures
        holds(created@, props),
        holds(final(changed)@, props),
        holds(created@, *kept),
        render,
{
}

/// A window is put where it stands.
pub proof fn law_windows_are_put_in_place(window: Window, style: String, text: String)
    requires
        call_ensures(Window::style, (&window,), style),
        call_ensures(window_style, (window@.geometry,), text),
    ensures
        style@ == text@,
{
}

/// A copy of what a window shows is the same in every part.
pub proof fn law_copied_window_props(props: WindowProps, copy: WindowProps)
    requires
        call_ensures(WindowProps::clone, (&props,), copy),
    ensures
        holds(copy@, props),
        holds(copy@, copy),
{
}

} // verus!
