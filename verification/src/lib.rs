//! The logic of a terminal chat client that talks to its language model
//! through a line-based bridge process: the JSON it sends and reads, the
//! command line, the chat commands, and the live Markdown renderer.
//!
//! Nothing in this crate performs input or output. Functions named `print_*`
//! append to a string that stands for the terminal, and the parts of the
//! program that wait for the bridge or for the user are state machines that
//! are told what arrived and answer with what to do next.

pub mod args;
pub mod args_laws;
pub mod box_laws;
pub mod chat;
pub mod chat_laws;
pub mod color_laws;
pub mod command_laws;
pub mod config;
pub mod dotenv;
pub mod faults;
pub mod json;
pub mod json_laws;
pub mod line_laws;
pub mod payload;
pub mod render;
pub mod render_laws;
pub mod screen;
pub mod screen_laws;
pub mod start;
pub mod start_laws;
pub mod stream;
pub mod text;
pub mod text_laws;
