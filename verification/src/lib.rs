//! The workspace of a modular audio mixer: modules shown as draggable windows,
//! wired to each other from outputs to inputs.

pub mod connections;
pub mod counter;
pub mod laws;
pub mod message;
mod node;
pub mod order;
pub mod panels;
pub mod protocol;
pub mod scene;
pub mod state;
pub mod text;
pub mod transition;
pub mod window;
pub mod window_ref;
pub mod workspace;

pub use connections::{
    can_plan_line, plan_line_points, CanvasOp, Connections, ConnectionsProps, END_SEGMENT_LENGTH,
};
pub use counter::Counter;
pub use message::{Drag, Effect, MouseEvent, MouseMode, Update, WorkspaceMsg};
pub use panels::{
    FmSine, FmSineProps, OutputDevice, OutputDeviceProps, SineGenerator, SineGeneratorProps,
};
pub use protocol::{
    ClientMessage, Coords, FmSineParams, Frequency, Indication, InputId, ModuleId, ModuleParams,
    OutputDeviceIndication, OutputDeviceParams, OutputId, SineGeneratorParams, TerminalId,
    WindowGeometry,
};
pub use scene::{
    ContextMenu, MenuItem, Scene, TerminalOffsets, CANVAS_SIZE, FM_FREQ_HI, FM_FREQ_LO, SINE_FREQ,
    TERMINAL_CENTER,
};
pub use state::State;
pub use window::{ParamsPanel, Window, WindowEffect, WindowMsg, WindowProps, WindowUpdate};
pub use window_ref::WindowRef;
pub use workspace::{Workspace, WorkspaceProps};
