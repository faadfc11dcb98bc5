//! Numeric constants of the Glk API and of the Blorb format.
use vstd::prelude::*;

verus! {

/// Glk styles.
pub const style_Normal: u32 = 0;
pub const style_Emphasized: u32 = 1;
pub const style_Preformatted: u32 = 2;
pub const style_Header: u32 = 3;
pub const style_Subheader: u32 = 4;
pub const style_Alert: u32 = 5;
pub const style_Note: u32 = 6;
pub const style_BlockQuote: u32 = 7;
pub const style_Input: u32 = 8;
pub const style_User1: u32 = 9;
pub const style_User2: u32 = 10;
pub const style_NUMSTYLES: u32 = 11;

/// Glk style hints.
pub const stylehint_Indentation: u32 = 0;
pub const stylehint_ParaIndentation: u32 = 1;
pub const stylehint_Justification: u32 = 2;
pub const stylehint_Size: u32 = 3;
pub const stylehint_Weight: u32 = 4;
pub const stylehint_Oblique: u32 = 5;
pub const stylehint_Proportional: u32 = 6;
pub const stylehint_TextColor: u32 = 7;
pub const stylehint_BackColor: u32 = 8;
pub const stylehint_ReverseColor: u32 = 9;
pub const stylehint_NUMHINTS: u32 = 10;

/// Values of the justification style hint.
pub const stylehint_just_LeftFlush: u32 = 0;
pub const stylehint_just_LeftRight: u32 = 1;
pub const stylehint_just_Centered: u32 = 2;
pub const stylehint_just_RightFlush: u32 = 3;

/// The number of styles, as an array length.
pub const STYLE_COUNT: usize = 11;

/// The number of style hints, as an array length.
pub const HINT_COUNT: usize = 10;

/// Blorb error code for a malformed file.
pub const giblorb_err_Format: u32 = 5;

/// The four-character code `FORM`, as a big-endian integer.
pub const giblorb_ID_FORM_CODE: u32 = 0x464F524D;

/// The colour value that asks a map for its default background.
pub const mapcolor_Default: u32 = 0xFFFFFFFF;

} // verus!
