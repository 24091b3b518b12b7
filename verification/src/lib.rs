//! Turns an archived chat export into the text of static HTML pages: one index
//! page per server and one page per chunk of a channel's message history.

pub mod index;
pub mod model;
pub mod page;
pub mod pipeline;
pub mod render;
pub mod size;
pub mod text;
pub mod time;
