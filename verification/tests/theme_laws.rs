use remglk::constants::{
    style_Alert, style_NUMSTYLES, style_Normal, stylehint_NUMHINTS, stylehint_Oblique,
    stylehint_ParaIndentation, stylehint_Proportional, stylehint_ReverseColor,
    stylehint_TextColor, stylehint_Weight,
};
use remglk::theme::{clear_hint, measure_style, set_hint, HintMatrix, ThemeState, WindowType};

fn no_hints() -> HintMatrix {
    [[None; stylehint_NUMHINTS as usize]; style_NUMSTYLES as usize]
}

#[test]
fn out_of_range_is_unmeasured_and_unset() {
    let theme = ThemeState::default();
    let mut hints = no_hints();
    set_hint(&mut hints, style_NUMSTYLES, stylehint_TextColor, 5);
    set_hint(&mut hints, style_Normal, stylehint_NUMHINTS, 5);
    assert_eq!(hints, no_hints());
    assert_eq!(measure_style(&theme, true, &hints, WindowType::Buffer, style_NUMSTYLES, 0), None);
    assert_eq!(measure_style(&theme, true, &hints, WindowType::Buffer, 0, stylehint_NUMHINTS), None);
    clear_hint(&mut hints, 99, 99);
    assert_eq!(hints, no_hints());
}

#[test]
fn setting_one_hint_leaves_others() {
    let theme = ThemeState::default();
    let mut hints = no_hints();
    set_hint(&mut hints, style_Alert, stylehint_TextColor, 0x010203);
    assert_eq!(
        measure_style(&theme, true, &hints, WindowType::Buffer, style_Normal, stylehint_TextColor),
        Some(0x222222)
    );
    assert_eq!(
        measure_style(&theme, true, &hints, WindowType::Grid, style_Alert, stylehint_TextColor),
        Some(0x010203)
    );
}

#[test]
fn negative_hints_and_weights_wrap() {
    let mut theme = ThemeState::default();
    let mut hints = no_hints();
    set_hint(&mut hints, style_Normal, stylehint_ParaIndentation, -1);
    assert_eq!(
        measure_style(&theme, true, &hints, WindowType::Buffer, style_Normal, stylehint_ParaIndentation),
        Some(0xFFFFFFFF)
    );
    theme.buffer[0].weight = -1;
    assert_eq!(theme.measure_theme(WindowType::Buffer, style_Normal, stylehint_Weight), Some(0xFFFFFFFF));
}

#[test]
fn light_defaults_per_window_type() {
    let theme = ThemeState::from_light_defaults(false);
    assert!(!theme.stylehints_enabled);
    assert_eq!(theme.measure_theme(WindowType::Buffer, 4, stylehint_Proportional), Some(1));
    assert_eq!(theme.measure_theme(WindowType::Grid, 4, stylehint_Proportional), Some(0));
    assert_eq!(theme.measure_theme(WindowType::Grid, 2, stylehint_TextColor), Some(0));
    assert_eq!(theme.measure_theme(WindowType::Buffer, 1, stylehint_Oblique), Some(0));
    assert_eq!(theme.measure_theme(WindowType::Buffer, 1, stylehint_ReverseColor), Some(0));
}

#[test]
fn other_windows_and_styles_fall_back_to_buffer_normal() {
    let mut theme = ThemeState::default();
    theme.buffer[0].fg = 0x0000AA;
    theme.buffer[3].fg = 0x0000BB;
    assert_eq!(theme.entry(WindowType::Graphics, 3).fg, 0x0000AA);
    assert_eq!(theme.entry(WindowType::Buffer, 3).fg, 0x0000BB);
    assert_eq!(theme.entry(WindowType::Buffer, 42).fg, 0x0000AA);
    assert_eq!(theme.measure_theme(WindowType::Pair, 3, stylehint_TextColor), Some(0x0000AA));
}
