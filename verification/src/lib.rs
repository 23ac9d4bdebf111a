//! A line-oriented text editor core in the style of the classic `ed`
//! command language: a command grammar, address/range resolution against a
//! line buffer, and the buffer mutations (insert, append, correct, delete)
//! with a single "current line" cursor.

pub mod buffer;
pub mod command_structs;
pub mod ed_command_error;
pub mod ed_command_parser;
pub mod ed_commands;
pub mod modify;
pub mod numerals;
pub mod text;
