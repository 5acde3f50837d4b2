//! Concatenate text sources to an output stream, optionally numbering lines.
pub mod args;
pub mod errors;
pub mod input;
pub mod laws;
pub mod print;
pub mod text;

pub use args::PurrArgs;
pub use input::validate_file_path;
pub use print::PrintManager;
pub use text::read_file;
