//! The verified core of a real-time voice cleaner plugin: its settings file
//! format. Reading turns the text of a settings file into the assignments it
//! makes and the on/off switches they set; writing turns assignments back into
//! text that reads back as the same assignments.

pub mod text;
pub mod settings;
pub mod properties;
