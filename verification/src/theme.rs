//! The theme table supplied by the display layer, and `glk_style_measure`.
use vstd::prelude::*;

use crate::constants::{
    style_NUMSTYLES, style_Normal, stylehint_BackColor, stylehint_Indentation, stylehint_Justification,
    stylehint_NUMHINTS, stylehint_Oblique, stylehint_ParaIndentation, stylehint_Proportional,
    stylehint_ReverseColor, stylehint_Size, stylehint_TextColor, stylehint_Weight,
    stylehint_just_LeftFlush, HINT_COUNT,
    STYLE_COUNT,
};
use crate::protocol::{StyleEntry, StyleTable, Theme};

verus! {

/// The kinds of Glk window.
#[derive(Clone, Copy, Debug, PartialEq, Eq)]
pub enum WindowType {
    All,
    Pair,
    Blank,
    Buffer,
    Grid,
    Graphics,
}

/// Style hints set by the story: one optional value per style and hint.
pub type HintMatrix = [[Option<i32>; HINT_COUNT]; STYLE_COUNT];

/// The hint stored for style `s` and hint `h`.
pub open spec fn hint_at(m: HintMatrix, s: int, h: int) -> Option<i32> {
    m[s][h]
}

/// Whether `after` is `before` with the cell of style `s` and hint `h` set
/// to `v`, and every other cell unchanged.
pub open spec fn hints_updated(before: HintMatrix, after: HintMatrix, s: int, h: int, v: Option<i32>) -> bool {
    forall|i: int, j: int|
        0 <= i < STYLE_COUNT && 0 <= j < HINT_COUNT ==> #[trigger] hint_at(after, i, j) == if i == s
            && j == h {
            v
        } else {
            hint_at(before, i, j)
        }
}

/// Whether two hint matrices hold the same hints.
pub open spec fn hints_same(a: HintMatrix, b: HintMatrix) -> bool {
    forall|i: int, j: int|
        0 <= i < STYLE_COUNT && 0 <= j < HINT_COUNT ==> #[trigger] hint_at(a, i, j) == hint_at(b, i, j)
}

/// The normal style of buffer windows in the light theme.
pub open spec fn light_buffer_normal() -> StyleEntry {
    StyleEntry { fg: 0x222222, bg: 0xFFFFFF, weight: 0, oblique: 0, proportional: 1, reverse: 0 }
}

/// The normal style of grid windows in the light theme.
pub open spec fn light_grid_normal() -> StyleEntry {
    StyleEntry { fg: 0x000000, bg: 0xFFFFFF, weight: 0, oblique: 0, proportional: 0, reverse: 0 }
}

/// The style array made from a table: its first entries, then `fallback`.
pub open spec fn table_entries(table: Seq<StyleEntry>, fallback: StyleEntry) -> Seq<StyleEntry> {
    Seq::new(
        STYLE_COUNT as nat,
        |i: int|
            if i < table.len() {
                table[i]
            } else {
                fallback
            },
    )
}

/// Runner-provided theme table used by glk_style_measure
#[derive(Clone, Debug, PartialEq)]
pub struct ThemeState {
    pub stylehints_enabled: bool,
    pub buffer: [StyleEntry; STYLE_COUNT],
    pub grid: [StyleEntry; STYLE_COUNT],
}

impl ThemeState {
    /// The entry that `entry` gives back.
    pub open spec fn spec_entry(self, wintype: WindowType, style: u32) -> StyleEntry {
        let s: int = if style < style_NUMSTYLES {
            style as int
        } else {
            style_Normal as int
        };
        match wintype {
            WindowType::Buffer => self.buffer[s],
            WindowType::Grid => self.grid[s],
            _ => self.buffer[style_Normal as int],
        }
    }

    /// The value that `measure_theme` gives back.
    pub open spec fn spec_measure_theme(self, wintype: WindowType, style: u32, hint: u32) -> Option<u32> {
        if style >= style_NUMSTYLES || hint >= stylehint_NUMHINTS {
            None
        } else if hint == stylehint_Indentation || hint == stylehint_ParaIndentation {
            Some(0)
        } else if hint == stylehint_Justification {
            Some(stylehint_just_LeftFlush)
        } else if hint == stylehint_Size {
            Some(1)
        } else if hint == stylehint_Weight {
            Some(self.spec_entry(wintype, style).weight as u32)
        } else if hint == stylehint_Oblique {
            Some(self.spec_entry(wintype, style).oblique)
        } else if hint == stylehint_Proportional {
            Some(self.spec_entry(wintype, style).proportional)
        } else if hint == stylehint_TextColor {
            Some(self.spec_entry(wintype, style).fg)
        } else if hint == stylehint_BackColor {
            Some(self.spec_entry(wintype, style).bg)
        } else {
            Some(self.spec_entry(wintype, style).reverse)
        }
    }

    pub fn from_light_defaults(stylehints_enabled: bool) -> (r: Self)
        ensures
            r.stylehints_enabled == stylehints_enabled,
            forall|i: int| 0 <= i < STYLE_COUNT ==> #[trigger] r.buffer[i] == light_buffer_normal(),
            forall|i: int| 0 <= i < STYLE_COUNT ==> #[trigger] r.grid[i] == light_grid_normal(),
    {
        let buffer_normal = StyleEntry {
            fg: 0x222222,
            bg: 0xFFFFFF,
            weight: 0,
            oblique: 0,
            proportional: 1,
            reverse: 0,
        };
        let grid_normal = StyleEntry {
            fg: 0x000000,
            bg: 0xFFFFFF,
            weight: 0,
            oblique: 0,
            proportional: 0,
            reverse: 0,
        };
        Self {
            stylehints_enabled,
            buffer: [buffer_normal; STYLE_COUNT],
            grid: [grid_normal; STYLE_COUNT],
        }
    }

    /// Takes the hint setting and the style tables of `theme`. Styles that a
    /// table leaves out take the normal buffer style held before the call.
    pub fn apply(&mut self, theme: Theme)
        ensures
            final(self).stylehints_enabled == theme.stylehints_enabled,
            final(self).buffer@ == table_entries(theme.buffer@, old(self).buffer[style_Normal as int]),
            final(self).grid@ == table_entries(theme.grid@, old(self).grid[style_Normal as int]),
    {
        self.stylehints_enabled = theme.stylehints_enabled;
        self.buffer = table_to_array(theme.buffer, self.buffer[style_Normal as usize]);
        self.grid = table_to_array(theme.grid, self.grid[style_Normal as usize]);
    }

    pub fn entry(&self, wintype: WindowType, style: u32) -> (r: StyleEntry)
        ensures
            r == self.spec_entry(wintype, style),
    {
        let table = match wintype {
            WindowType::Buffer => &self.buffer,
            WindowType::Grid => &self.grid,
            _ => return self.buffer[style_Normal as usize],
        };
        if style < style_NUMSTYLES {
            table[style as usize]
        } else {
            table[style_Normal as usize]
        }
    }

    pub fn measure_theme(&self, wintype: WindowType, style: u32, hint: u32) -> (r: Option<u32>)
        ensures
            r == self.spec_measure_theme(wintype, style, hint),
    {
        if style >= style_NUMSTYLES || hint >= stylehint_NUMHINTS {
            return None;
        }
        if hint == stylehint_Indentation || hint == stylehint_ParaIndentation {
            Some(0)
        } else if hint == stylehint_Justification {
            Some(stylehint_just_LeftFlush)
        } else if hint == stylehint_Size {
            Some(1)
        } else if hint == stylehint_Weight {
            Some(self.entry(wintype, style).weight as u32)
        } else if hint == stylehint_Oblique {
            Some(self.entry(wintype, style).oblique)
        } else if hint == stylehint_Proportional {
            Some(self.entry(wintype, style).proportional)
        } else if hint == stylehint_TextColor {
            Some(self.entry(wintype, style).fg)
        } else if hint == stylehint_BackColor {
            Some(self.entry(wintype, style).bg)
        } else {
            Some(self.entry(wintype, style).reverse)
        }
    }
}

impl Default for ThemeState {
    fn default() -> (r: Self)
        ensures
            r.stylehints_enabled,
            forall|i: int| 0 <= i < STYLE_COUNT ==> #[trigger] r.buffer[i] == light_buffer_normal(),
            forall|i: int| 0 <= i < STYLE_COUNT ==> #[trigger] r.grid[i] == light_grid_normal(),
    {
        Self::from_light_defaults(true)
    }
}

fn table_to_array(table: StyleTable, fallback: StyleEntry) -> (r: [StyleEntry; STYLE_COUNT])
    ensures
        r@ == table_entries(table@, fallback),
{
    let mut out = [fallback; STYLE_COUNT];
    let n: usize = if table.len() < STYLE_COUNT {
        table.len()
    } else {
        STYLE_COUNT
    };
    let mut i: usize = 0;
    while i < n
        invariant
            n <= STYLE_COUNT,
            n <= table.len(),
            n == table.len() || n == STYLE_COUNT,
            i <= n,
            out@.len() == STYLE_COUNT,
            forall|k: int| 0 <= k < i ==> out@[k] == table@[k],
            forall|k: int| i <= k < STYLE_COUNT ==> out@[k] == fallback,
        decreases n - i,
    {
        out[i] = table[i];
        i = i + 1;
    }
    assert(out@ =~= table_entries(table@, fallback));
    out
}

/// The value that `measure_style` gives back.
pub open spec fn spec_measure_style(
    theme: ThemeState,
    hints_enabled: bool,
    hint_matrix: HintMatrix,
    wintype: WindowType,
    style: u32,
    hint: u32,
) -> Option<u32> {
    if style >= style_NUMSTYLES || hint >= stylehint_NUMHINTS {
        None
    } else if hints_enabled && hint_at(hint_matrix, style as int, hint as int) is Some {
        Some(hint_at(hint_matrix, style as int, hint as int)->0 as u32)
    } else {
        theme.spec_measure_theme(wintype, style, hint)
    }
}

pub fn measure_style(
    theme: &ThemeState,
    hints_enabled: bool,
    hint_matrix: &HintMatrix,
    wintype: WindowType,
    style: u32,
    hint: u32,
) -> (r: Option<u32>)
    ensures
        r == spec_measure_style(*theme, hints_enabled, *hint_matrix, wintype, style, hint),
{
    if style >= style_NUMSTYLES || hint >= stylehint_NUMHINTS {
        return None;
    }
    if hints_enabled {
        if let Some(value) = hint_matrix[style as usize][hint as usize] {
            return Some(value as u32);
        }
    }
    theme.measure_theme(wintype, style, hint)
}

pub fn set_hint(hint_matrix: &mut HintMatrix, style: u32, hint: u32, value: i32)
    ensures
        style < style_NUMSTYLES && hint < stylehint_NUMHINTS ==> hints_updated(
            *old(hint_matrix),
            *final(hint_matrix),
            style as int,
            hint as int,
            Some(value),
        ),
        !(style < style_NUMSTYLES && hint < stylehint_NUMHINTS) ==> hints_same(
            *old(hint_matrix),
            *final(hint_matrix),
        ),
{
    if style < style_NUMSTYLES && hint < stylehint_NUMHINTS {
        hint_matrix[style as usize][hint as usize] = Some(value);
    }
}

pub fn clear_hint(hint_matrix: &mut HintMatrix, style: u32, hint: u32)
    ensures
        style < style_NUMSTYLES && hint < stylehint_NUMHINTS ==> hints_updated(
            *old(hint_matrix),
            *final(hint_matrix),
            style as int,
            hint as int,
            None,
        ),
        !(style < style_NUMSTYLES && hint < stylehint_NUMHINTS) ==> hints_same(
            *old(hint_matrix),
            *final(hint_matrix),
        ),
{
    if style < style_NUMSTYLES && hint < stylehint_NUMHINTS {
        hint_matrix[style as usize][hint as usize] = None;
    }
}

/// While hints are enabled, a hint that has just been set is what
/// `measure_style` reports for its style and hint, in any window type.
pub proof fn lemma_set_hint_round_trip(
    theme: ThemeState,
    before: HintMatrix,
    after: HintMatrix,
    wintype: WindowType,
    style: u32,
    hint: u32,
    value: i32,
)
    requires
        style < style_NUMSTYLES,
        hint < stylehint_NUMHINTS,
        hints_updated(before, after, style as int, hint as int, Some(value)),
    ensures
        spec_measure_style(theme, true, after, wintype, style, hint) == Some(value as u32),
{
    assert(hint_at(after, style as int, hint as int) == Some(value));
}

/// Clearing a hint gives the measurement back to the theme table, whether
/// hints are enabled or not.
pub proof fn lemma_clear_hint_restores_theme(
    theme: ThemeState,
    before: HintMatrix,
    after: HintMatrix,
    hints_enabled: bool,
    wintype: WindowType,
    style: u32,
    hint: u32,
)
    requires
        style < style_NUMSTYLES,
        hint < stylehint_NUMHINTS,
        hints_updated(before, after, style as int, hint as int, None),
    ensures
        spec_measure_style(theme, hints_enabled, after, wintype, style, hint)
            == theme.spec_measure_theme(wintype, style, hint),
{
    assert(hint_at(after, style as int, hint as int) == None::<i32>);
}

/// With hints disabled, the theme table alone decides every measurement.
pub proof fn lemma_disabled_hints_defer_to_theme(
    theme: ThemeState,
    hint_matrix: HintMatrix,
    wintype: WindowType,
    style: u32,
    hint: u32,
)
    ensures
        spec_measure_style(theme, false, hint_matrix, wintype, style, hint)
            == theme.spec_measure_theme(wintype, style, hint),
{
}

/// Setting or clearing one hint changes no measurement of another style or
/// hint.
pub proof fn lemma_hint_update_frame(
    theme: ThemeState,
    before: HintMatrix,
    after: HintMatrix,
    hints_enabled: bool,
    wintype: WindowType,
    style: u32,
    hint: u32,
    value: Option<i32>,
    other_style: u32,
    other_hint: u32,
)
    requires
        hints_updated(before, after, style as int, hint as int, value),
        other_style != style || other_hint != hint,
    ensures
        spec_measure_style(theme, hints_enabled, after, wintype, other_style, other_hint)
            == spec_measure_style(theme, hints_enabled, before, wintype, other_style, other_hint),
{
    if other_style < style_NUMSTYLES && other_hint < stylehint_NUMHINTS {
        assert(hint_at(after, other_style as int, other_hint as int) == hint_at(
            before,
            other_style as int,
            other_hint as int,
        ));
    }
}

/// A measurement is missing exactly when the style or the hint is out of
/// range.
pub proof fn lemma_measure_defined_in_range(
    theme: ThemeState,
    hints_enabled: bool,
    hint_matrix: HintMatrix,
    wintype: WindowType,
    style: u32,
    hint: u32,
)
    ensures
        spec_measure_style(theme, hints_enabled, hint_matrix, wintype, style, hint) is None <==> (
        style >= style_NUMSTYLES || hint >= stylehint_NUMHINTS),
{
}

/// After a theme is applied, each window type reports the table's entry for
/// every style that the table lists.
pub proof fn lemma_apply_then_entry(before: ThemeState, after: ThemeState, theme: Theme, style: u32)
    requires
        after.buffer@ == table_entries(theme.buffer@, before.buffer[style_Normal as int]),
        after.grid@ == table_entries(theme.grid@, before.grid[style_Normal as int]),
        style < style_NUMSTYLES,
    ensures
        style < theme.buffer@.len() ==> after.spec_entry(WindowType::Buffer, style)
            == theme.buffer@[style as int],
        style < theme.grid@.len() ==> after.spec_entry(WindowType::Grid, style)
            == theme.grid@[style as int],
        style >= theme.buffer@.len() ==> after.spec_entry(WindowType::Buffer, style)
            == before.buffer[style_Normal as int],
        style >= theme.grid@.len() ==> after.spec_entry(WindowType::Grid, style)
            == before.grid[style_Normal as int],
{
    assert(after.buffer@[style as int] == after.buffer[style as int]);
    assert(after.grid@[style as int] == after.grid[style as int]);
}

/// Every style hint that a theme entry answers is read from the entry's own
/// field: for a style in range, a buffer window reads the buffer table's
/// entry for that style, a grid window the grid table's, and any other window
/// the buffer table's normal entry. Weight gives the weight, Oblique the
/// oblique flag, Proportional the proportional flag, TextColor the foreground,
/// BackColor the background and ReverseColor the reverse flag; the layout
/// hints give 0, left-flush justification and size 1.
pub proof fn lemma_measure_theme_fields(theme: ThemeState, wintype: WindowType, style: u32)
    requires
        style < style_NUMSTYLES,
    ensures
        ({
            let e = if wintype == WindowType::Buffer {
                theme.buffer[style as int]
            } else if wintype == WindowType::Grid {
                theme.grid[style as int]
            } else {
                theme.buffer[0]
            };
            &&& theme.spec_measure_theme(wintype, style, stylehint_Weight) == Some(e.weight as u32)
            &&& theme.spec_measure_theme(wintype, style, stylehint_Oblique) == Some(e.oblique)
            &&& theme.spec_measure_theme(wintype, style, stylehint_Proportional) == Some(
                e.proportional,
            )
            &&& theme.spec_measure_theme(wintype, style, stylehint_TextColor) == Some(e.fg)
            &&& theme.spec_measure_theme(wintype, style, stylehint_BackColor) == Some(e.bg)
            &&& theme.spec_measure_theme(wintype, style, stylehint_ReverseColor) == Some(e.reverse)
            &&& theme.spec_measure_theme(wintype, style, stylehint_Indentation) == Some(0u32)
            &&& theme.spec_measure_theme(wintype, style, stylehint_ParaIndentation) == Some(0u32)
            &&& theme.spec_measure_theme(wintype, style, stylehint_Justification) == Some(0u32)
            &&& theme.spec_measure_theme(wintype, style, stylehint_Size) == Some(1u32)
        }),
{
}

/// With no story hint in force for a style and hint, `measure_style` gives
/// the theme entry's own field for that hint.
pub proof fn lemma_measure_style_without_hint(
    theme: ThemeState,
    hints_enabled: bool,
    hint_matrix: HintMatrix,
    wintype: WindowType,
    style: u32,
    hint: u32,
)
    requires
        style < style_NUMSTYLES,
        hint < stylehint_NUMHINTS,
        !hints_enabled || hint_at(hint_matrix, style as int, hint as int) is None,
    ensures
        ({
            let e = if wintype == WindowType::Buffer {
                theme.buffer[style as int]
            } else if wintype == WindowType::Grid {
                theme.grid[style as int]
            } else {
                theme.buffer[0]
            };
            &&& hint == stylehint_Weight ==> spec_measure_style(
                theme,
                hints_enabled,
                hint_matrix,
                wintype,
                style,
                hint,
            ) == Some(e.weight as u32)
            &&& hint == stylehint_Oblique ==> spec_measure_style(
                theme,
                hints_enabled,
                hint_matrix,
                wintype,
                style,
                hint,
            ) == Some(e.oblique)
            &&& hint == stylehint_Proportional ==> spec_measure_style(
                theme,
                hints_enabled,
                hint_matrix,
                wintype,
                style,
                hint,
            ) == Some(e.proportional)
            &&& hint == stylehint_TextColor ==> spec_measure_style(
                theme,
                hints_enabled,
                hint_matrix,
                wintype,
                style,
                hint,
            ) == Some(e.fg)
            &&& hint == stylehint_BackColor ==> spec_measure_style(
                theme,
                hints_enabled,
                hint_matrix,
                wintype,
                style,
                hint,
            ) == Some(e.bg)
            &&& hint == stylehint_ReverseColor ==> spec_measure_style(
                theme,
                hints_enabled,
                hint_matrix,
                wintype,
                style,
                hint,
            ) == Some(e.reverse)
        }),
{
    lemma_measure_theme_fields(theme, wintype, style);
}

/// A buffer window reads the buffer table and a grid window the grid table,
/// at the style asked for or, for a style out of range, at the normal style;
/// every other window reads the buffer table's normal style.
pub proof fn lemma_entry_lookup(theme: ThemeState, wintype: WindowType, style: u32)
    ensures
        wintype == WindowType::Buffer && style < 11 ==> theme.spec_entry(wintype, style)
            == theme.buffer[style as int],
        wintype == WindowType::Grid && style < 11 ==> theme.spec_entry(wintype, style)
            == theme.grid[style as int],
        wintype == WindowType::Buffer && style >= 11 ==> theme.spec_entry(wintype, style)
            == theme.buffer[0],
        wintype == WindowType::Grid && style >= 11 ==> theme.spec_entry(wintype, style)
            == theme.grid[0],
        wintype != WindowType::Buffer && wintype != WindowType::Grid ==> theme.spec_entry(
            wintype,
            style,
        ) == theme.buffer[0],
{
}

} // verus!
