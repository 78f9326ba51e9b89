use mixlab_workspace::{
    Coords, Counter, FmSineParams, Frequency, InputId, ModuleId, ModuleParams, MouseEvent,
    OutputDeviceIndication, OutputDeviceParams, OutputId, SineGeneratorParams, TerminalId,
};

fn one_of_each() -> Vec<ModuleParams> {
    vec![
        ModuleParams::SineGenerator(SineGeneratorParams { freq: Frequency(1) }),
        ModuleParams::OutputDevice(OutputDeviceParams { device: Some("card".to_string()) }),
        ModuleParams::Mixer2ch(()),
        ModuleParams::FmSine(FmSineParams { freq_lo: Frequency(2), freq_hi: Frequency(3) }),
    ]
}

#[test]
fn counter_counts_up_from_zero() {
    let mut counter = Counter::new();
    assert!(!counter.is_exhausted());
    assert_eq!(counter.next(), 0);
    assert_eq!(counter.next(), 1);
    assert_eq!(counter.next(), 2);
    assert!(!counter.is_exhausted());
}

#[test]
fn coords_add_and_subtract() {
    let a = Coords { x: 3, y: -4 };
    let b = Coords { x: 10, y: 20 };
    assert_eq!(a.add(b), Coords { x: 13, y: 16 });
    assert_eq!(a.sub(b), Coords { x: -7, y: -24 });
    assert_eq!(a.add(b).sub(b), a);
}

#[test]
fn coords_out_of_range_are_noticed() {
    let far = Coords { x: i32::MAX, y: i32::MIN };
    let one = Coords { x: 1, y: 0 };
    let down = Coords { x: 0, y: 1 };
    assert_eq!(far.checked_add(one), None);
    assert_eq!(far.checked_sub(down), None);
    assert_eq!(far.checked_sub(one), Some(Coords { x: i32::MAX - 1, y: i32::MIN }));
    assert_eq!(far.checked_add(down), Some(Coords { x: i32::MAX, y: i32::MIN + 1 }));
}

#[test]
fn terminals_know_their_module() {
    let input = InputId(ModuleId(4), 1);
    let output = OutputId(ModuleId(5), 2);
    assert_eq!(TerminalId::Input(input).module_id(), ModuleId(4));
    assert_eq!(TerminalId::Output(output).module_id(), ModuleId(5));
    assert_eq!(input.key(), (4, 1));
    assert_eq!(output.key(), (5, 2));
}

#[test]
fn only_equal_kinds_are_the_same_kind() {
    let all = one_of_each();
    for i in 0..all.len() {
        for j in 0..all.len() {
            assert_eq!(all[i].is_same_kind(&all[j]), i == j);
        }
    }
    let other = ModuleParams::SineGenerator(SineGeneratorParams { freq: Frequency(99) });
    assert!(all[0].is_same_kind(&other));
}

#[test]
fn terminal_counts_of_each_kind() {
    let counts: Vec<(usize, usize)> =
        one_of_each().iter().map(|m| (m.input_count(), m.output_count())).collect();
    assert_eq!(counts, vec![(0, 1), (1, 0), (2, 1), (1, 1)]);
}

#[test]
fn names_are_the_beginning_of_the_debug_form() {
    for module in one_of_each() {
        let debug: String =
            format!("{:?}", module).chars().take_while(|c| c.is_alphanumeric()).collect();
        assert_eq!(module.name(), debug);
    }
    assert_eq!(ModuleParams::Mixer2ch(()).name(), "Mixer2ch");
}

#[test]
fn clones_are_equal() {
    for module in one_of_each() {
        assert_eq!(module.clone(), module);
    }
    let indication = OutputDeviceIndication {
        devices: Some(vec!["a".to_string(), "b".to_string()]),
    };
    assert_eq!(indication.clone(), indication);
    let none = OutputDeviceIndication { devices: None };
    assert_eq!(none.clone(), none);
}

#[test]
fn right_button_is_the_second_bit() {
    let at = |buttons| MouseEvent { page_x: 7, page_y: 8, buttons };
    assert!(!at(0).right_button());
    assert!(!at(1).right_button());
    assert!(at(2).right_button());
    assert!(at(3).right_button());
    assert!(!at(4).right_button());
    assert!(at(6).right_button());
    assert_eq!(at(0).position(), Coords { x: 7, y: 8 });
}
