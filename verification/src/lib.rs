//! A WordStar-style text editor core: the text buffer, key translation,
//! editing commands, search and replace, and the screen-column arithmetic.

pub mod util;
pub mod chars;
pub mod buffer;
pub mod buffer_laws;
pub mod keymap;
pub mod editor_model;
pub mod editor;
pub mod line_number;
pub mod editor_laws;
pub mod command_laws;
pub mod screen;
