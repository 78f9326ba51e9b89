use mixlab_workspace::{
    Coords, FmSine, FmSineParams, FmSineProps, Frequency, Indication, InputId, ModuleId,
    ModuleParams, MouseEvent, OutputDevice, OutputDeviceIndication, OutputDeviceParams,
    OutputDeviceProps, OutputId, ParamsPanel, SineGenerator, SineGeneratorParams,
    SineGeneratorProps, TerminalId, Window, WindowEffect, WindowGeometry, WindowMsg, WindowProps,
    WindowRef, WorkspaceMsg,
};

fn hertz(freq: f64) -> Frequency {
    Frequency(freq.to_bits())
}

fn props(id: usize, module: ModuleParams, indication: Option<Indication>) -> WindowProps {
    WindowProps {
        id: ModuleId(id),
        geometry: WindowGeometry { position: Coords { x: 30, y: 40 }, z_index: 5 },
        name: module.name().to_string(),
        refs: WindowRef::for_module(&module),
        module,
        indication,
    }
}

fn press(buttons: u16) -> MouseEvent {
    MouseEvent { page_x: 1, page_y: 2, buttons }
}

#[test]
fn drag_start_is_stopped_and_passed_on() {
    let mut window = Window::create(props(3, ModuleParams::Mixer2ch(()), None));
    let update = window.update(WindowMsg::DragStart(press(1)));
    assert!(!update.should_render);
    assert_eq!(
        update.effects,
        vec![
            WindowEffect::StopPropagation,
            WindowEffect::Send(WorkspaceMsg::DragStart(ModuleId(3), press(1))),
        ]
    );
}

#[test]
fn terminals_are_selected_by_left_and_cleared_by_right() {
    let mut window = Window::create(props(3, ModuleParams::Mixer2ch(()), None));
    let terminal = TerminalId::Input(InputId(ModuleId(3), 1));
    let left = window.update(WindowMsg::TerminalMouseDown(press(1), terminal));
    assert_eq!(
        left.effects,
        vec![
            WindowEffect::Send(WorkspaceMsg::SelectTerminal(terminal)),
            WindowEffect::StopPropagation,
        ]
    );
    let right = window.update(WindowMsg::TerminalMouseDown(press(2), terminal));
    assert_eq!(
        right.effects,
        vec![
            WindowEffect::Send(WorkspaceMsg::ClearTerminal(terminal)),
            WindowEffect::StopPropagation,
        ]
    );
    assert!(!left.should_render && !right.should_render);
}

#[test]
fn deleting_and_settings_are_passed_on() {
    let mut window = Window::create(props(9, ModuleParams::Mixer2ch(()), None));
    assert_eq!(
        window.update(WindowMsg::Delete).effects,
        vec![WindowEffect::Send(WorkspaceMsg::DeleteWindow(ModuleId(9)))]
    );
    assert_eq!(
        window.update(WindowMsg::UpdateParams(ModuleParams::Mixer2ch(()))).effects,
        vec![WindowEffect::Send(WorkspaceMsg::UpdateModuleParams(
            ModuleId(9),
            ModuleParams::Mixer2ch(())
        ))]
    );
}

#[test]
fn window_takes_on_other_props() {
    let mut window = Window::create(props(1, ModuleParams::Mixer2ch(()), None));
    assert_eq!(window.style(), "left:30px; top:40px; z-index:5;");
    let mut other = props(2, ModuleParams::Mixer2ch(()), None);
    other.geometry.position.x = -1;
    assert!(window.change(other.clone()));
    assert_eq!(window.props().id, ModuleId(2));
    assert_eq!(window.style(), "left:-1px; top:40px; z-index:5;");
}

#[test]
fn window_shows_its_terminals() {
    let window = Window::create(props(6, ModuleParams::Mixer2ch(()), None));
    let inputs: Vec<TerminalId> = window.view_inputs().iter().map(|(t, _)| *t).collect();
    let outputs: Vec<TerminalId> = window.view_outputs().iter().map(|(t, _)| *t).collect();
    assert_eq!(
        inputs,
        vec![
            TerminalId::Input(InputId(ModuleId(6), 0)),
            TerminalId::Input(InputId(ModuleId(6), 1)),
        ]
    );
    assert_eq!(outputs, vec![TerminalId::Output(OutputId(ModuleId(6), 0))]);
    assert!(window.view_inputs()[0].1.get().is_none());
}

#[test]
fn every_kind_has_its_panel() {
    let sine = SineGeneratorParams { freq: hertz(440.0) };
    let window = Window::create(props(1, ModuleParams::SineGenerator(sine), None));
    assert_eq!(
        window.view_params(),
        ParamsPanel::SineGenerator(SineGeneratorProps { id: ModuleId(1), params: sine })
    );

    let fm = FmSineParams { freq_lo: hertz(1.0), freq_hi: hertz(2.0) };
    let window = Window::create(props(2, ModuleParams::FmSine(fm), None));
    assert_eq!(
        window.view_params(),
        ParamsPanel::FmSine(FmSineProps { id: ModuleId(2), params: fm })
    );

    let window = Window::create(props(3, ModuleParams::Mixer2ch(()), None));
    assert_eq!(window.view_params(), ParamsPanel::Empty);
}

#[test]
fn output_device_has_a_panel_once_reported_on() {
    let params = OutputDeviceParams { device: None };
    let module = ModuleParams::OutputDevice(params.clone());
    let window = Window::create(props(4, module.clone(), None));
    assert_eq!(window.view_params(), ParamsPanel::Empty);

    let indication = OutputDeviceIndication { devices: Some(vec!["speakers".to_string()]) };
    let window = Window::create(props(
        4,
        module,
        Some(Indication::OutputDevice(indication.clone())),
    ));
    assert_eq!(
        window.view_params(),
        ParamsPanel::OutputDevice(OutputDeviceProps {
            id: ModuleId(4),
            params,
            indication: Some(indication),
        })
    );
}

#[test]
fn sine_generator_panel() {
    let params = SineGeneratorParams { freq: hertz(440.0) };
    let mut panel = SineGenerator::create(SineGeneratorProps { id: ModuleId(12), params });
    assert_eq!(panel.freq_id(), "w12-sine-freq");
    assert_eq!(f64::from_bits(panel.freq().0), 440.0);
    assert_eq!(
        panel.freq_changed(Some(hertz(220.5))),
        WindowMsg::UpdateParams(ModuleParams::SineGenerator(SineGeneratorParams {
            freq: hertz(220.5)
        }))
    );
    assert_eq!(
        panel.freq_changed(None),
        WindowMsg::UpdateParams(ModuleParams::SineGenerator(SineGeneratorParams {
            freq: hertz(0.0)
        }))
    );
    assert!(!panel.update());
    let other = SineGeneratorParams { freq: hertz(1.0) };
    assert!(panel.change(SineGeneratorProps { id: ModuleId(13), params: other }));
    assert_eq!(panel.freq_id(), "w13-sine-freq");
    assert_eq!(panel.freq(), hertz(1.0));
}

#[test]
fn fm_sine_panel() {
    let params = FmSineParams { freq_lo: hertz(90.0), freq_hi: hertz(110.0) };
    let mut panel = FmSine::create(FmSineProps { id: ModuleId(7), params });
    assert_eq!(panel.freq_lo_id(), "w7-fmsine-freqlo");
    assert_eq!(panel.freq_hi_id(), "w7-fmsine-freqhi");
    assert_eq!(
        panel.freq_lo_changed(Some(hertz(5.0))),
        WindowMsg::UpdateParams(ModuleParams::FmSine(FmSineParams {
            freq_lo: hertz(5.0),
            freq_hi: hertz(110.0)
        }))
    );
    assert_eq!(
        panel.freq_hi_changed(None),
        WindowMsg::UpdateParams(ModuleParams::FmSine(FmSineParams {
            freq_lo: hertz(90.0),
            freq_hi: hertz(0.0)
        }))
    );
    assert!(!panel.update());
    assert_eq!(panel.params(), params);
    let other = FmSineParams { freq_lo: hertz(1.0), freq_hi: hertz(2.0) };
    assert!(panel.change(FmSineProps { id: ModuleId(7), params: other }));
    assert_eq!(panel.params(), other);
}

#[test]
fn output_device_panel() {
    let names = vec!["speakers".to_string(), "headphones".to_string()];
    let mut panel = OutputDevice::create(OutputDeviceProps {
        id: ModuleId(1),
        params: OutputDeviceParams { device: Some("speakers".to_string()) },
        indication: Some(OutputDeviceIndication { devices: Some(names.clone()) }),
    });
    assert_eq!(panel.devices(), names);
    assert_eq!(panel.selected(), &Some("speakers".to_string()));
    assert_eq!(
        panel.device_changed("headphones".to_string()),
        WindowMsg::UpdateParams(ModuleParams::OutputDevice(OutputDeviceParams {
            device: Some("headphones".to_string())
        }))
    );
    assert!(!panel.update());
    for indication in [None, Some(OutputDeviceIndication { devices: None })] {
        assert!(panel.change(OutputDeviceProps {
            id: ModuleId(1),
            params: OutputDeviceParams { device: None },
            indication,
        }));
        assert_eq!(panel.devices(), Vec::<String>::new());
        assert_eq!(panel.selected(), &None);
    }
}
