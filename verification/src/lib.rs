pub mod clock;
pub mod entry;
pub mod grammar;
pub mod parser;
pub mod reader;
pub mod remote;
pub mod text;
