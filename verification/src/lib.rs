//! Host facts gathered from a machine's management interfaces, normalised to
//! display strings and laid out beside a block of ASCII art.
#![allow(non_camel_case_types)]

pub mod chars;
pub mod clock;
pub mod display;
pub mod enums;
pub mod facts;
pub mod laws;
pub mod normalize;
pub mod render;
pub mod scan;
pub mod text_collector;
pub mod trusted;
pub mod windows;
