//! Verified core of a Glk implementation: the theme table behind
//! `glk_style_measure`, the state machine of the Glk mapping extension, and
//! the IFF chunk reader used for Blorb resources.
#![allow(non_upper_case_globals)]
#![allow(non_snake_case)]

pub mod constants;
pub mod protocol;
pub mod theme;
pub mod css;
pub mod map;
pub mod glkapi;
pub mod stream;
pub mod text;
pub mod iff;
