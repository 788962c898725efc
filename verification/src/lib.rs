//! Text expansion for keyboards: a small circular log of the keys that were
//! released, the rules that decide when a typed abbreviation is replaced by
//! its expansion, the parsing of account lines of `/etc/passwd`, and the
//! listing of the start tags of the replacements file.

pub mod keylog;
pub mod keymap;
pub mod passwd;
pub mod replace;
pub mod text;
pub mod xml;
