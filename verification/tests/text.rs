use mixlab_workspace::text::{decimal_of, field_id, pixels, position_style, window_style};
use mixlab_workspace::{Coords, ModuleId, WindowGeometry};

#[test]
fn numbers_are_written_as_the_standard_library_writes_them() {
    for n in [0, 1, 9, 10, 11, 99, 100, 2000, 1234567890, i32::MAX, -1, -10, -305, i32::MIN] {
        assert_eq!(decimal_of(n), format!("{}", n));
    }
}

#[test]
fn lengths_are_in_pixels() {
    assert_eq!(pixels(0), "0px");
    assert_eq!(pixels(-42), "-42px");
}

#[test]
fn styles_place_elements() {
    let position = Coords { x: 120, y: -7 };
    assert_eq!(position_style(position), "left:120px; top:-7px;");
    assert_eq!(
        window_style(WindowGeometry { position, z_index: 31 }),
        "left:120px; top:-7px; z-index:31;"
    );
    assert_eq!(
        window_style(WindowGeometry { position: Coords { x: 0, y: 0 }, z_index: usize::MAX }),
        format!("left:0px; top:0px; z-index:{};", usize::MAX)
    );
}

#[test]
fn fields_of_different_modules_have_different_names() {
    assert_eq!(field_id(ModuleId(12), "-sine-freq"), "w12-sine-freq");
    assert_ne!(field_id(ModuleId(1), "-sine-freq"), field_id(ModuleId(11), "-sine-freq"));
    assert_ne!(field_id(ModuleId(1), "-sine-freq"), field_id(ModuleId(2), "-fmsine-freqlo"));
}
