use remglk::constants::{
    style_Input, style_Normal, stylehint_BackColor, stylehint_Indentation, stylehint_Justification,
    stylehint_NUMHINTS, stylehint_Size, stylehint_TextColor, stylehint_just_LeftFlush,
    style_NUMSTYLES,
};
use remglk::protocol::{StyleEntry, Theme};
use remglk::theme::{clear_hint, measure_style, set_hint, HintMatrix, ThemeState, WindowType};

fn empty_hints() -> HintMatrix {
    [[None; stylehint_NUMHINTS as usize]; style_NUMSTYLES as usize]
}

fn test_theme() -> ThemeState {
    let mut theme = ThemeState::from_light_defaults(true);
    let mut input = theme.buffer[style_Normal as usize];
    input.fg = 0x0B4C8E;
    theme.buffer[style_Input as usize] = input;
    theme
}

#[test]
fn hint_round_trip_when_enabled() {
    let theme = test_theme();
    let mut hints = empty_hints();
    set_hint(&mut hints, style_Normal, stylehint_TextColor, 0x123456);
    set_hint(&mut hints, style_Normal, stylehint_BackColor, 0x654321);

    assert_eq!(
        measure_style(&theme, true, &hints, WindowType::Buffer, style_Normal, stylehint_TextColor),
        Some(0x123456)
    );
    assert_eq!(
        measure_style(&theme, true, &hints, WindowType::Buffer, style_Normal, stylehint_BackColor),
        Some(0x654321)
    );
}

#[test]
fn theme_wins_when_hints_disabled() {
    let theme = test_theme();
    let mut hints = empty_hints();
    set_hint(&mut hints, style_Normal, stylehint_TextColor, 0x123456);

    assert_eq!(
        measure_style(&theme, false, &hints, WindowType::Buffer, style_Normal, stylehint_TextColor),
        Some(0x222222)
    );
}

#[test]
fn grid_vs_buffer_window_type() {
    let mut theme = ThemeState::from_light_defaults(true);
    theme.grid[style_Normal as usize].fg = 0xDDDDDD;
    theme.grid[style_Normal as usize].bg = 0x111111;
    let hints = empty_hints();

    assert_eq!(
        measure_style(&theme, true, &hints, WindowType::Grid, style_Normal, stylehint_TextColor),
        Some(0xDDDDDD)
    );
    assert_eq!(
        measure_style(&theme, true, &hints, WindowType::Grid, style_Normal, stylehint_BackColor),
        Some(0x111111)
    );
}

#[test]
fn per_style_theme_entry() {
    let theme = test_theme();
    let hints = empty_hints();

    assert_eq!(
        measure_style(&theme, true, &hints, WindowType::Buffer, style_Input, stylehint_TextColor),
        Some(0x0B4C8E)
    );
}

#[test]
fn non_colour_hardcoded_hints() {
    let theme = test_theme();
    let hints = empty_hints();

    assert_eq!(
        measure_style(&theme, true, &hints, WindowType::Buffer, style_Normal, stylehint_Indentation),
        Some(0)
    );
    assert_eq!(
        measure_style(&theme, true, &hints, WindowType::Buffer, style_Normal, stylehint_Justification),
        Some(stylehint_just_LeftFlush)
    );
    assert_eq!(
        measure_style(&theme, true, &hints, WindowType::Buffer, style_Normal, stylehint_Size),
        Some(1)
    );
}

#[test]
fn clear_hint_restores_theme() {
    let theme = test_theme();
    let mut hints = empty_hints();
    set_hint(&mut hints, style_Normal, stylehint_TextColor, 0x123456);
    clear_hint(&mut hints, style_Normal, stylehint_TextColor);

    assert_eq!(
        measure_style(&theme, true, &hints, WindowType::Buffer, style_Normal, stylehint_TextColor),
        Some(0x222222)
    );
}

#[test]
fn apply_theme_from_protocol() {
    let mut theme = ThemeState::default();
    theme.apply(Theme {
        stylehints_enabled: false,
        buffer: vec![StyleEntry {
            fg: 0x111111,
            bg: 0xEEEEEE,
            weight: 0,
            oblique: 0,
            proportional: 1,
            reverse: 0,
        }],
        grid: vec![StyleEntry {
            fg: 0x222222,
            bg: 0x333333,
            weight: 0,
            oblique: 0,
            proportional: 0,
            reverse: 0,
        }],
    });
    assert!(!theme.stylehints_enabled);
    assert_eq!(theme.entry(WindowType::Buffer, style_Normal).fg, 0x111111);
    assert_eq!(theme.entry(WindowType::Grid, style_Normal).bg, 0x333333);
}
