//! The terminal front end.
pub mod ansi;
pub mod width;
pub mod wrap;
pub mod section;
pub mod toolout;
pub mod repl;
pub mod commands;
pub mod ask;
pub mod human;
pub mod slack;
pub mod pickup;
pub mod ticket_log;
pub mod supervisor;
pub mod files;
pub mod flow_mode;
pub mod print;
pub mod serve;
pub mod daemon;
pub mod plugins;
pub mod startup;
pub mod attach;
pub mod laws;
pub mod made;
pub mod said;
pub mod shown;
