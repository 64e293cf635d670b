//! Text layout logic for drawing multi-line text inside a bounding box: horizontal and
//! vertical alignment, text tokenization, in-band ANSI styling and the plugin machinery that
//! transforms the token stream.
pub mod alignment;
pub mod color;
pub mod parser;
pub mod plain_parser;
pub mod plugin;
pub mod middleware;
pub mod text_box;
