//! The values that the workspace exchanges with the mixer.

use vstd::prelude::*;

verus! {

/// The number of a module.
#[derive(Debug, Clone, Copy, PartialEq, Eq, Structural)]
pub struct ModuleId(pub usize);

/// An input of a module: the module and the input's index in it.
#[derive(Debug, Clone, Copy, PartialEq, Eq, Structural)]
pub struct InputId(pub ModuleId, pub usize);

/// An output of a module: the module and the output's index in it.
#[derive(Debug, Clone, Copy, PartialEq, Eq, Structural)]
pub struct OutputId(pub ModuleId, pub usize);

#[derive(Debug, Clone, Copy, PartialEq, Eq, Structural)]
pub enum TerminalId {
    Input(InputId),
    Output(OutputId),
}

impl InputId {
    /// The pair of numbers under which a map files this input.
    pub open spec fn spec_key(self) -> (usize, usize) {
        (self.0.0, self.1)
    }

    /// The pair of numbers under which a map files this input.
    #[verifier::when_used_as_spec(spec_key)]
    pub fn key(self) -> (key: (usize, usize))
        ensures
            key == self.key(),
    {
        (self.0.0, self.1)
    }

    pub open spec fn spec_module_id(self) -> ModuleId {
        self.0
    }

    #[verifier::when_used_as_spec(spec_module_id)]
    pub fn module_id(self) -> (module: ModuleId)
        ensures
            module == self.module_id(),
    {
        self.0
    }
}

impl OutputId {
    /// The pair of numbers under which a map files this output.
    pub open spec fn spec_key(self) -> (usize, usize) {
        (self.0.0, self.1)
    }

    /// The pair of numbers under which a map files this output.
    #[verifier::when_used_as_spec(spec_key)]
    pub fn key(self) -> (key: (usize, usize))
        ensures
            key == self.key(),
    {
        (self.0.0, self.1)
    }

    pub open spec fn spec_module_id(self) -> ModuleId {
        self.0
    }

    #[verifier::when_used_as_spec(spec_module_id)]
    pub fn module_id(self) -> (module: ModuleId)
        ensures
            module == self.module_id(),
    {
        self.0
    }
}

impl TerminalId {
    pub open spec fn spec_module_id(self) -> ModuleId {
        match self {
            TerminalId::Input(input) => input.module_id(),
            TerminalId::Output(output) => output.module_id(),
        }
    }

    /// The module that the terminal belongs to.
    #[verifier::when_used_as_spec(spec_module_id)]
    pub fn module_id(self) -> (module: ModuleId)
        ensures
            module == self.module_id(),
    {
        match self {
            TerminalId::Input(input) => input.module_id(),
            TerminalId::Output(output) => output.module_id(),
        }
    }
}

/// Whether a number is an `i32`.
pub open spec fn fits(n: int) -> bool {
    i32::MIN <= n <= i32::MAX
}

/// A point of the page, or the way from one point to another, in pixels.
#[derive(Debug, Clone, Copy, PartialEq, Eq, Structural)]
pub struct Coords {
    pub x: i32,
    pub y: i32,
}

impl Coords {
    pub open spec fn sum_fits(self, other: Coords) -> bool {
        fits(self.x + other.x) && fits(self.y + other.y)
    }

    pub open spec fn difference_fits(self, other: Coords) -> bool {
        fits(self.x - other.x) && fits(self.y - other.y)
    }

    /// The sum, coordinate by coordinate.
    pub open spec fn plus(self, other: Coords) -> Coords
        recommends
            self.sum_fits(other),
    {
        Coords { x: (self.x + other.x) as i32, y: (self.y + other.y) as i32 }
    }

    /// The difference, coordinate by coordinate.
    pub open spec fn minus(self, other: Coords) -> Coords
        recommends
            self.difference_fits(other),
    {
        Coords { x: (self.x - other.x) as i32, y: (self.y - other.y) as i32 }
    }

    pub fn add(self, other: Coords) -> (sum: Coords)
        requires
            self.sum_fits(other),
        ensures
            sum == self.plus(other),
            sum.x == self.x + other.x,
            sum.y == self.y + other.y,
    {
        Coords { x: self.x + other.x, y: self.y + other.y }
    }

    pub fn sub(self, other: Coords) -> (difference: Coords)
        requires
            self.difference_fits(other),
        ensures
            difference == self.minus(other),
            difference.x == self.x - other.x,
            difference.y == self.y - other.y,
    {
        Coords { x: self.x - other.x, y: self.y - other.y }
    }

    /// The sum, where it fits.
    pub fn checked_add(self, other: Coords) -> (sum: Option<Coords>)
        ensures
            sum == if self.sum_fits(other) {
                Some(self.plus(other))
            } else {
                None
            },
    {
        match (self.x.checked_add(other.x), self.y.checked_add(other.y)) {
            (Some(x), Some(y)) => Some(Coords { x, y }),
            _ => None,
        }
    }

    /// The difference, where it fits.
    pub fn checked_sub(self, other: Coords) -> (difference: Option<Coords>)
        ensures
            difference == if self.difference_fits(other) {
                Some(self.minus(other))
            } else {
                None
            },
    {
        match (self.x.checked_sub(other.x), self.y.checked_sub(other.y)) {
            (Some(x), Some(y)) => Some(Coords { x, y }),
            _ => None,
        }
    }
}

/// Where a window stands on the page, and how far in front.
#[derive(Debug, Clone, Copy, PartialEq, Eq, Structural)]
pub struct WindowGeometry {
    pub position: Coords,
    pub z_index: usize,
}

/// A frequency in hertz, as the bits of an IEEE 754 double.
#[derive(Debug, Clone, Copy, PartialEq, Eq, Structural)]
pub struct Frequency(pub u64);

#[derive(Debug, Clone, Copy, PartialEq, Eq, Structural)]
pub struct SineGeneratorParams {
    pub freq: Frequency,
}

#[derive(Debug, Clone, Copy, PartialEq, Eq, Structural)]
pub struct FmSineParams {
    pub freq_lo: Frequency,
    pub freq_hi: Frequency,
}

#[derive(Debug, PartialEq, Eq)]
pub struct OutputDeviceParams {
    pub device: Option<String>,
}

impl Clone for OutputDeviceParams {
    fn clone(&self) -> (copy: Self)
        ensures
            copy == *self,
    {
        let device = match &self.device {
            Some(name) => Some(name.clone()),
            None => None,
        };
        OutputDeviceParams { device }
    }
}

/// What kind of module it is, and its settings.
#[derive(Debug, PartialEq, Eq)]
pub enum ModuleParams {
    SineGenerator(SineGeneratorParams),
    OutputDevice(OutputDeviceParams),
    Mixer2ch(()),
    FmSine(FmSineParams),
}

impl Clone for ModuleParams {
    fn clone(&self) -> (copy: Self)
        ensures
            copy == *self,
    {
        match self {
            ModuleParams::SineGenerator(params) => ModuleParams::SineGenerator(*params),
            ModuleParams::OutputDevice(params) => ModuleParams::OutputDevice(params.clone()),
            ModuleParams::Mixer2ch(()) => ModuleParams::Mixer2ch(()),
            ModuleParams::FmSine(params) => ModuleParams::FmSine(*params),
        }
    }
}

impl ModuleParams {
    /// Whether both are settings of one kind of module.
    pub open spec fn same_kind(self, other: ModuleParams) -> bool {
        match self {
            ModuleParams::SineGenerator(_) => other is SineGenerator,
            ModuleParams::OutputDevice(_) => other is OutputDevice,
            ModuleParams::Mixer2ch(_) => other is Mixer2ch,
            ModuleParams::FmSine(_) => other is FmSine,
        }
    }

    /// Whether both are settings of one kind of module.
    pub fn is_same_kind(&self, other: &ModuleParams) -> (same: bool)
        ensures
            same == self.same_kind(*other),
    {
        match (self, other) {
            (ModuleParams::SineGenerator(_), ModuleParams::SineGenerator(_)) => true,
            (ModuleParams::OutputDevice(_), ModuleParams::OutputDevice(_)) => true,
            (ModuleParams::Mixer2ch(_), ModuleParams::Mixer2ch(_)) => true,
            (ModuleParams::FmSine(_), ModuleParams::FmSine(_)) => true,
            _ => false,
        }
    }

    /// How many inputs a module of this kind has.
    pub open spec fn spec_input_count(&self) -> usize {
        match self {
            ModuleParams::SineGenerator(_) => 0,
            ModuleParams::OutputDevice(_) => 1,
            ModuleParams::Mixer2ch(_) => 2,
            ModuleParams::FmSine(_) => 1,
        }
    }

    /// How many inputs a module of this kind has.
    #[verifier::when_used_as_spec(spec_input_count)]
    pub fn input_count(&self) -> (count: usize)
        ensures
            count == self.input_count(),
    {
        match self {
            ModuleParams::SineGenerator(_) => 0,
            ModuleParams::OutputDevice(_) => 1,
            ModuleParams::Mixer2ch(_) => 2,
            ModuleParams::FmSine(_) => 1,
        }
    }

    /// How many outputs a module of this kind has.
    pub open spec fn spec_output_count(&self) -> usize {
        match self {
            ModuleParams::SineGenerator(_) => 1,
            ModuleParams::OutputDevice(_) => 0,
            ModuleParams::Mixer2ch(_) => 1,
            ModuleParams::FmSine(_) => 1,
        }
    }

    /// How many outputs a module of this kind has.
    #[verifier::when_used_as_spec(spec_output_count)]
    pub fn output_count(&self) -> (count: usize)
        ensures
            count == self.output_count(),
    {
        match self {
            ModuleParams::SineGenerator(_) => 1,
            ModuleParams::OutputDevice(_) => 0,
            ModuleParams::Mixer2ch(_) => 1,
            ModuleParams::FmSine(_) => 1,
        }
    }

    /// The name of this kind of module, as its window's title shows it.
    pub open spec fn spec_name(&self) -> Seq<char> {
        match self {
            ModuleParams::SineGenerator(_) => "SineGenerator"@,
            ModuleParams::OutputDevice(_) => "OutputDevice"@,
            ModuleParams::Mixer2ch(_) => "Mixer2ch"@,
            ModuleParams::FmSine(_) => "FmSine"@,
        }
    }

    /// The name of this kind of module, as its window's title shows it.
    pub fn name(&self) -> (name: &'static str)
        ensures
            name@ == self.spec_name(),
    {
        match self {
            ModuleParams::SineGenerator(_) => "SineGenerator",
            ModuleParams::OutputDevice(_) => "OutputDevice",
            ModuleParams::Mixer2ch(_) => "Mixer2ch",
            ModuleParams::FmSine(_) => "FmSine",
        }
    }
}

/// The audio devices that the mixer has found, where it has looked for them.
#[derive(Debug, PartialEq, Eq)]
pub struct OutputDeviceIndication {
    pub devices: Option<Vec<String>>,
}

impl View for OutputDeviceIndication {
    type V = Option<Seq<String>>;

    open spec fn view(&self) -> Option<Seq<String>> {
        match self.devices {
            Some(devices) => Some(devices@),
            None => None,
        }
    }
}

/// A copy of a list of names.
pub(crate) fn clone_names(names: &Vec<String>) -> (copy: Vec<String>)
    ensures
        copy@ == names@,
{
    let mut copy: Vec<String> = Vec::new();
    for i in 0..names.len()
        invariant
            copy@ == names@.take(i as int),
    {
        copy.push(names[i].clone());
        assert(names@.take(i + 1) == names@.take(i as int).push(names@[i as int]));
    }
    assert(names@.take(names@.len() as int) == names@);
    copy
}

impl Clone for OutputDeviceIndication {
    fn clone(&self) -> (copy: Self)
        ensures
            copy@ == self@,
    {
        let devices = match &self.devices {
            Some(names) => Some(clone_names(names)),
            None => None,
        };
        OutputDeviceIndication { devices }
    }
}

/// What the mixer reports of a running module.
#[derive(Debug, PartialEq, Eq)]
pub enum Indication {
    OutputDevice(OutputDeviceIndication),
}

/// What an indication says.
pub enum IndicationView {
    OutputDevice(Option<Seq<String>>),
}

impl View for Indication {
    type V = IndicationView;

    open spec fn view(&self) -> IndicationView {
        match self {
            Indication::OutputDevice(indication) => IndicationView::OutputDevice(indication@),
        }
    }
}

impl Clone for Indication {
    fn clone(&self) -> (copy: Self)
        ensures
            copy@ == self@,
    {
        match self {
            Indication::OutputDevice(indication) => Indication::OutputDevice(indication.clone()),
        }
    }
}

/// What the workspace tells the mixer.
#[derive(Debug, PartialEq, Eq)]
pub enum ClientMessage {
    CreateModule(ModuleParams, WindowGeometry),
    UpdateModuleParams(ModuleId, ModuleParams),
    UpdateWindowGeometry(ModuleId, WindowGeometry),
    DeleteModule(ModuleId),
    CreateConnection(InputId, OutputId),
    DeleteConnection(InputId),
}

/// A terminal is filed under the number of its module and its index, and belongs to that module.
pub proof fn law_terminals_are_filed_by_module_and_index(
    input: InputId,
    output: OutputId,
    input_key: (usize, usize),
    output_key: (usize, usize),
    input_module: ModuleId,
    output_module: ModuleId,
)
    requires
        call_ensures(InputId::key, (input,), input_key),
        call_ensures(OutputId::key, (output,), output_key),
        call_ensures(InputId::module_id, (input,), input_module),
        call_ensures(OutputId::module_id, (output,), output_module),
    ensures
        input_key.0 == input.0.0 && input_key.1 == input.1,
        output_key.0 == output.0.0 && output_key.1 == output.1,
        input_module == input.0,
        output_module == output.0,
{
}

/// A terminal of either side belongs to the module that it is numbered by.
pub proof fn law_terminals_belong_to_their_modules(terminal: TerminalId, module: ModuleId)
    requires
        call_ensures(TerminalId::module_id, (terminal,), module),
    ensures
        match terminal {
            TerminalId::Input(input) => module == input.0,
            TerminalId::Output(output) => module == output.0,
        },
{
}

/// Ways add up coordinate by coordinate, where the sums are in range, and taking one away again
/// leads back.
pub proof fn law_ways_add_up(
    from: Coords,
    way: Coords,
    checked: Option<Coords>,
    to: Coords,
    back: Coords,
)
    requires
        call_ensures(Coords::checked_add, (from, way), checked),
        i32::MIN <= from.x + way.x <= i32::MAX && i32::MIN <= from.y + way.y <= i32::MAX
            ==> call_ensures(Coords::add, (from, way), to) && call_ensures(
            Coords::sub,
            (to, way),
            back,
        ),
    ensures
        checked is Some <==> i32::MIN <= from.x + way.x <= i32::MAX && i32::MIN <= from.y + way.y
            <= i32::MAX,
        checked is Some ==> {
            &&& call_requires(Coords::add, (from, way))
            &&& to.x == from.x + way.x
            &&& to.y == from.y + way.y
            &&& checked == Some(to)
            &&& call_requires(Coords::sub, (to, way))
            &&& back == from
        },
{
}

/// The way from one point to another is their difference, coordinate by coordinate, where it is in
/// range.
pub proof fn law_ways_lead_from_point_to_point(
    to: Coords,
    from: Coords,
    checked: Option<Coords>,
    way: Coords,
)
    requires
        call_ensures(Coords::checked_sub, (to, from), checked),
        i32::MIN <= to.x - from.x <= i32::MAX && i32::MIN <= to.y - from.y <= i32::MAX
            ==> call_ensures(Coords::sub, (to, from), way),
    ensures
        checked is Some <==> i32::MIN <= to.x - from.x <= i32::MAX && i32::MIN <= to.y - from.y
            <= i32::MAX,
        checked is Some ==> {
            &&& call_requires(Coords::sub, (to, from))
            &&& way.x == to.x - from.x
            &&& way.y == to.y - from.y
            &&& checked == Some(way)
        },
{
}

/// Settings are of one kind just if they are for the same kind of module, whatever they are.
pub proof fn law_kinds_are_told_apart(a: ModuleParams, b: ModuleParams, same: bool)
    requires
        call_ensures(ModuleParams::is_same_kind, (&a, &b), same),
    ensures
        same <==> {
            ||| a is SineGenerator && b is SineGenerator
            ||| a is OutputDevice && b is OutputDevice
            ||| a is Mixer2ch && b is Mixer2ch
            ||| a is FmSine && b is FmSine
        },
{
}

/// Generators have an output, and one of them an input to modulate it; a mixer brings two inputs
/// together; an output device only takes sound in.
pub proof fn law_kinds_have_their_terminals(module: ModuleParams, inputs: usize, outputs: usize)
    requires
        call_ensures(ModuleParams::input_count, (&module,), inputs),
        call_ensures(ModuleParams::output_count, (&module,), outputs),
    ensures
        module is SineGenerator ==> inputs == 0 && outputs == 1,
        module is OutputDevice ==> inputs == 1 && outputs == 0,
        module is Mixer2ch ==> inputs == 2 && outputs == 1,
        module is FmSine ==> inputs == 1 && outputs == 1,
{
}

/// A window's title names the kind of its module, whatever the settings are.
pub proof fn law_kinds_have_their_names(module: ModuleParams, name: &'static str)
    requires
        call_ensures(ModuleParams::name, (&module,), name),
    ensures
        module is SineGenerator ==> name@ == "SineGenerator"@,
        module is OutputDevice ==> name@ == "OutputDevice"@,
        module is Mixer2ch ==> name@ == "Mixer2ch"@,
        module is FmSine ==> name@ == "FmSine"@,
{
}

/// A copy of a module's settings is the same settings.
pub proof fn law_copied_settings(
    module: ModuleParams,
    copy: ModuleParams,
    device: OutputDeviceParams,
    device_copy: OutputDeviceParams,
)
    requires
        call_ensures(ModuleParams::clone, (&module,), copy),
        call_ensures(OutputDeviceParams::clone, (&device,), device_copy),
    ensures
        copy == module,
        device_copy.device == device.device,
{
}

/// A copy of a report names the same devices in the same order, if any were looked for.
pub proof fn law_copied_reports(
    report: Indication,
    copy: Indication,
    devices: OutputDeviceIndication,
    devices_copy: OutputDeviceIndication,
)
    requires
        call_ensures(Indication::clone, (&report,), copy),
        call_ensures(OutputDeviceIndication::clone, (&devices,), devices_copy),
    ensures
        match (report, copy) {
            (Indication::OutputDevice(a), Indication::OutputDevice(b)) => match (
                a.devices,
                b.devices,
            ) {
                (Some(a), Some(b)) => a@ == b@,
                (None, None) => true,
                _ => false,
            },
        },
        match (devices.devices, devices_copy.devices) {
            (Some(a), Some(b)) => a@ == b@,
            (None, None) => true,
            _ => false,
        },
{
}

} // verus!
