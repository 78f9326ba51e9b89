//! The settings shown in a module's window.

use vstd::prelude::*;

use crate::protocol::{
    clone_names, FmSineParams, Frequency, ModuleId, ModuleParams, OutputDeviceIndication,
    OutputDeviceParams, SineGeneratorParams,
};
use crate::text::field_id;
use crate::window::WindowMsg;

verus! {

/// What a frequency is taken to be where none could be read: nothing at all.
pub open spec fn spec_or_zero(freq: Option<Frequency>) -> Frequency {
    match freq {
        Some(freq) => freq,
        None => Frequency(0),
    }
}

/// What a frequency is taken to be where none could be read: nothing at all.
#[verifier::when_used_as_spec(spec_or_zero)]
pub fn or_zero(freq: Option<Frequency>) -> (result: Frequency)
    ensures
        result == or_zero(freq),
{
    match freq {
        Some(freq) => freq,
        None => Frequency(0),
    }
}

#[derive(Debug, Clone, Copy, PartialEq, Eq, Structural)]
pub struct SineGeneratorProps {
    pub id: ModuleId,
    pub params: SineGeneratorParams,
}

/// The settings of a sine generator.
#[derive(Debug)]
pub struct SineGenerator {
    props: SineGeneratorProps,
}

impl View for SineGenerator {
    type V = SineGeneratorProps;

    closed spec fn view(&self) -> SineGeneratorProps {
        self.props
    }
}

impl SineGenerator {
    pub fn create(props: SineGeneratorProps) -> (panel: SineGenerator)
        ensures
            panel@ == props,
    {
        SineGenerator { props }
    }

    /// No message changes the panel.
    pub fn update(&mut self) -> (should_render: bool)
        ensures
            *final(self) == *old(self),
            !should_render,
    {
        false
    }

    /// Takes on other settings.
    pub fn change(&mut self, props: SineGeneratorProps) -> (should_render: bool)
        ensures
            final(self)@ == props,
            should_render,
    {
        self.props = props;
        true
    }

    /// The frequency to show.
    pub fn freq(&self) -> (freq: Frequency)
        ensures
            freq == self@.params.freq,
    {
        self.props.params.freq
    }

    /// The name of the frequency's field.
    pub fn freq_id(&self) -> (name: String)
        ensures
            name@ == crate::text::field_id_text(self@.id, "-sine-freq"@),
    {
        field_id(self.props.id, "-sine-freq")
    }

    /// What typing in a frequency asks for, `None` being one that cannot be read.
    pub fn freq_changed(&self, freq: Option<Frequency>) -> (msg: WindowMsg)
        ensures
            msg == WindowMsg::UpdateParams(
                ModuleParams::SineGenerator(SineGeneratorParams { freq: or_zero(freq) }),
            ),
    {
        WindowMsg::UpdateParams(
            ModuleParams::SineGenerator(SineGeneratorParams { freq: or_zero(freq) }),
        )
    }
}

#[derive(Debug, Clone, Copy, PartialEq, Eq, Structural)]
pub struct FmSineProps {
    pub id: ModuleId,
    pub params: FmSineParams,
}

/// The settings of a frequency-modulated sine generator.
#[derive(Debug)]
pub struct FmSine {
    props: FmSineProps,
}

impl View for FmSine {
    type V = FmSineProps;

    closed spec fn view(&self) -> FmSineProps {
        self.props
    }
}

impl FmSine {
    pub fn create(props: FmSineProps) -> (panel: FmSine)
        ensures
            panel@ == props,
    {
        FmSine { props }
    }

    /// No message changes the panel.
    pub fn update(&mut self) -> (should_render: bool)
        ensures
            *final(self) == *old(self),
            !should_render,
    {
        false
    }

    /// Takes on other settings.
    pub fn change(&mut self, props: FmSineProps) -> (should_render: bool)
        ensures
            final(self)@ == props,
            should_render,
    {
        self.props = props;
        true
    }

    /// The frequencies to show.
    pub fn params(&self) -> (params: FmSineParams)
        ensures
            params == self@.params,
    {
        self.props.params
    }

    /// The name of the lower frequency's field.
    pub fn freq_lo_id(&self) -> (name: String)
        ensures
            name@ == crate::text::field_id_text(self@.id, "-fmsine-freqlo"@),
    {
        field_id(self.props.id, "-fmsine-freqlo")
    }

    /// The name of the upper frequency's field.
    pub fn freq_hi_id(&self) -> (name: String)
        ensures
            name@ == crate::text::field_id_text(self@.id, "-fmsine-freqhi"@),
    {
        field_id(self.props.id, "-fmsine-freqhi")
    }

    /// What typing in a lower frequency asks for, `None` being one that cannot be read: the upper
    /// one stays.
    pub fn freq_lo_changed(&self, freq: Option<Frequency>) -> (msg: WindowMsg)
        ensures
            msg == WindowMsg::UpdateParams(
                ModuleParams::FmSine(
                    FmSineParams { freq_lo: or_zero(freq), freq_hi: self@.params.freq_hi },
                ),
            ),
    {
        let freq_lo = or_zero(freq);
        WindowMsg::UpdateParams(
            ModuleParams::FmSine(FmSineParams { freq_lo, ..self.props.params }),
        )
    }

    /// What typing in an upper frequency asks for, `None` being one that cannot be read: the
    /// lower one stays.
    pub fn freq_hi_changed(&self, freq: Option<Frequency>) -> (msg: WindowMsg)
        ensures
            msg == WindowMsg::UpdateParams(
                ModuleParams::FmSine(
                    FmSineParams { freq_lo: self@.params.freq_lo, freq_hi: or_zero(freq) },
                ),
            ),
    {
        let freq_hi = or_zero(freq);
        WindowMsg::UpdateParams(
            ModuleParams::FmSine(FmSineParams { freq_hi, ..self.props.params }),
        )
    }
}

#[derive(Debug, PartialEq, Eq)]
pub struct OutputDeviceProps {
    pub id: ModuleId,
    pub params: OutputDeviceParams,
    pub indication: Option<OutputDeviceIndication>,
}

/// What the panel of an output device is given.
#[verifier::ext_equal]
pub struct OutputDevicePropsView {
    pub id: ModuleId,
    pub params: OutputDeviceParams,
    /// What has been reported of the audio devices, if anything has been.
    pub indication: Option<Option<Seq<String>>>,
}

impl View for OutputDeviceProps {
    type V = OutputDevicePropsView;

    open spec fn view(&self) -> OutputDevicePropsView {
        OutputDevicePropsView {
            id: self.id,
            params: self.params,
            indication: match self.indication {
                Some(indication) => Some(indication@),
                None => None,
            },
        }
    }
}

impl Clone for OutputDeviceProps {
    fn clone(&self) -> (copy: Self)
        ensures
            copy@ == self@,
    {
        OutputDeviceProps {
            id: self.id,
            params: self.params.clone(),
            indication: match &self.indication {
                Some(indication) => Some(indication.clone()),
                None => None,
            },
        }
    }
}

impl OutputDevicePropsView {
    /// The devices to choose from: none, until some have been reported.
    pub open spec fn devices(self) -> Seq<String> {
        match self.indication {
            Some(Some(devices)) => devices,
            _ => seq![],
        }
    }
}

/// The settings of an output device.
#[derive(Debug)]
pub struct OutputDevice {
    props: OutputDeviceProps,
}

impl View for OutputDevice {
    type V = OutputDevicePropsView;

    closed spec fn view(&self) -> OutputDevicePropsView {
        self.props@
    }
}

impl OutputDevice {
    pub fn create(props: OutputDeviceProps) -> (panel: OutputDevice)
        ensures
            panel@ == props@,
    {
        OutputDevice { props }
    }

    /// No message changes the panel.
    pub fn update(&mut self) -> (should_render: bool)
        ensures
            *final(self) == *old(self),
            !should_render,
    {
        false
    }

    /// Takes on other settings.
    pub fn change(&mut self, props: OutputDeviceProps) -> (should_render: bool)
        ensures
            final(self)@ == props@,
            should_render,
    {
        self.props = props;
        true
    }

    /// The devices to choose from.
    pub fn devices(&self) -> (devices: Vec<String>)
        ensures
            devices@ == self@.devices(),
    {
        match &self.props.indication {
            Some(indication) => match &indication.devices {
                Some(devices) => clone_names(devices),
                None => Vec::new(),
            },
            None => Vec::new(),
        }
    }

    /// The device in use.
    pub fn selected(&self) -> (device: &Option<String>)
        ensures
            *device == self@.params.device,
    {
        &self.props.params.device
    }

    /// What choosing a device asks for.
    pub fn device_changed(&self, device: String) -> (msg: WindowMsg)
        ensures
            msg == WindowMsg::UpdateParams(
                ModuleParams::OutputDevice(OutputDeviceParams { device: Some(device) }),
            ),
    {
        WindowMsg::UpdateParams(
            ModuleParams::OutputDevice(OutputDeviceParams { device: Some(device) }),
        )
    }
}

/// What is typed in for a sine generator's frequency is what is asked for, and nothing at all where
/// it cannot be read.
pub proof fn law_typed_frequency(panel: SineGenerator, freq: Option<Frequency>, msg: WindowMsg)
    requires
        call_ensures(SineGenerator::freq_changed, (&panel, freq), msg),
    ensures
        msg matches WindowMsg::UpdateParams(ModuleParams::SineGenerator(params)) && match freq {
            Some(freq) => params.freq == freq,
            None => params.freq.0 == 0,
        },
{
}

/// What is typed in for one of the frequencies of a modulated generator is what is asked for, and
/// nothing at all where it cannot be read. The other one is asked for as it is.
pub proof fn law_typed_frequencies(
    panel: FmSine,
    freq: Option<Frequency>,
    lo: WindowMsg,
    hi: WindowMsg,
)
    requires
        call_ensures(FmSine::freq_lo_changed, (&panel, freq), lo),
        call_ensures(FmSine::freq_hi_changed, (&panel, freq), hi),
    ensures
        lo matches WindowMsg::UpdateParams(ModuleParams::FmSine(params)) && params.freq_hi
            == panel@.params.freq_hi && match freq {
            Some(freq) => params.freq_lo == freq,
            None => params.freq_lo.0 == 0,
        },
        hi matches WindowMsg::UpdateParams(ModuleParams::FmSine(params)) && params.freq_lo
            == panel@.params.freq_lo && match freq {
            Some(freq) => params.freq_hi == freq,
            None => params.freq_hi.0 == 0,
        },
{
}

/// The device that is chosen is the one that is asked for.
pub proof fn law_chosen_device(panel: OutputDevice, device: String, msg: WindowMsg)
    requires
        call_ensures(OutputDevice::device_changed, (&panel, device), msg),
    ensures
        msg matches WindowMsg::UpdateParams(ModuleParams::OutputDevice(params)) && params.device
            == Some(device),
{
}

/// All devices that have been reported can be chosen, in the order in which they were reported, and
/// no others; the one in use is shown as chosen.
pub proof fn law_reported_devices_can_be_chosen(
    props: OutputDeviceProps,
    panel: OutputDevice,
    devices: Vec<String>,
    selected: &Option<String>,
)
    requires
        call_ensures(OutputDevice::create, (props,), panel),
        call_ensures(OutputDevice::devices, (&panel,), devices),
        call_ensures(OutputDevice::selected, (&panel,), selected),
    ensures
        devices@ == match props.indication {
            Some(indication) => match indication.devices {
                Some(reported) => reported@,
                None => seq![],
            },
            None => seq![],
        },
        *selected == props.params.device,
{
}

/// A panel that is given other devices and settings shows these.
pub proof fn law_device_panels_show_what_they_are_given(
    panel: &mut OutputDevice,
    props: OutputDeviceProps,
    render: bool,
)
    requires
        call_ensures(OutputDevice::change, (panel, props), render),
    ensures
        render,
        final(panel)@.id == props.id,
        final(panel)@.params == props.params,
        final(panel)@.indication == match props.indication {
            Some(indication) => Some(
                match indication.devices {
                    Some(reported) => Some(reported@),
                    None => None,
                },
            ),
            None => None,
        },
{
}

/// The panel of a sine generator shows what it was last given.
pub proof fn law_sine_panels_show_what_they_are_given(
    props: SineGeneratorProps,
    created: SineGenerator,
    panel: &mut SineGenerator,
    render: bool,
    freq: Frequency,
)
    requires
        call_ensures(SineGenerator::create, (props,), created),
        call_ensures(SineGenerator::change, (panel, props), render),
        call_ensures(SineGenerator::freq, (&created,), freq),
    ensures
        created@.id == props.id,
        freq == props.params.freq,
        final(panel)@ == created@,
        render,
{
}

/// The panel of a modulated generator shows what it was last given.
pub proof fn law_fm_panels_show_what_they_are_given(
    props: FmSineProps,
    created: FmSine,
    panel: &mut FmSine,
    render: bool,
    params: FmSineParams,
)
    requires
        call_ensures(FmSine::create, (props,), created),
        call_ensures(FmSine::change, (panel, props), render),
        call_ensures(FmSine::params, (&created,), params),
    ensures
        created@.id == props.id,
        params.freq_lo == props.params.freq_lo,
        params.freq_hi == props.params.freq_hi,
        final(panel)@ == created@,
        render,
{
}

/// The fields of a panel are named by their module and what they are for.
pub proof fn law_fields_are_named(
    sine: SineGenerator,
    sine_freq: String,
    fm: FmSine,
    fm_lo: String,
    fm_hi: String,
    sine_name: String,
    lo_name: String,
    hi_name: String,
)
    requires
        call_ensures(SineGenerator::freq_id, (&sine,), sine_freq),
        call_ensures(FmSine::freq_lo_id, (&fm,), fm_lo),
        call_ensures(FmSine::freq_hi_id, (&fm,), fm_hi),
        call_ensures(field_id, (sine@.id, "-sine-freq"), sine_name),
        call_ensures(field_id, (fm@.id, "-fmsine-freqlo"), lo_name),
        call_ensures(field_id, (fm@.id, "-fmsine-freqhi"), hi_name),
    ensures
        sine_freq@ == sine_name@,
        fm_lo@ == lo_name@,
        fm_hi@ == hi_name@,
        fm_lo@ != fm_hi@,
{
    reveal_strlit("-fmsine-freqlo");
    reveal_strlit("-fmsine-freqhi");
    assert("-fmsine-freqlo"@[12] == 'l');
    assert("-fmsine-freqhi"@[12] == 'h');
    let n = fm_lo@.len();
    assert(fm_lo@[n - 2] == 'l');
    assert(fm_hi@.len() == n ==> fm_hi@[n - 2] == 'h');
}

/// No message changes a panel.
pub proof fn law_panels_ignore_messages(
    sine: &mut SineGenerator,
    sine_render: bool,
    fm: &mut FmSine,
    fm_render: bool,
    device: &mut OutputDevice,
    device_render: bool,
)
    requires
        call_ensures(SineGenerator::update, (sine,), sine_render),
        call_ensures(FmSine::update, (fm,), fm_render),
        call_ensures(OutputDevice::update, (device,), device_render),
    ensures
        *final(sine) == *old(sine) && !sine_render,
        *final(fm) == *old(fm) && !fm_render,
        *final(device) == *old(device) && !device_render,
{
}

/// A copy of what a panel is given names the same module, settings and devices.
pub proof fn law_copied_device_props(props: OutputDeviceProps, copy: OutputDeviceProps)
    requires
        call_ensures(OutputDeviceProps::clone, (&props,), copy),
    ensures
        copy.id == props.id,
        copy.params == props.params,
        copy.indication is Some <==> props.indication is Some,
        copy.indication is Some ==> match (
            copy.indication.unwrap().devices,
            props.indication.unwrap().devices,
        ) {
            (Some(a), Some(b)) => a@ == b@,
            (None, None) => true,
            _ => false,
        },
{
}

} // verus!
