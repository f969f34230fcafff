//! Looking texts up in the nested dictionaries of a translation, and filling
//! in their parameters.

pub mod language;
pub mod strings;
pub mod text;
