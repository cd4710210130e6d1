pub mod command;
pub mod settings;
pub mod translate;
