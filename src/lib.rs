//! A framed, multiplexed request/response channel over a duplex byte stream,
//! together with the project registry whose entries travel over it.
//!
//! From the bytes up: `frame` (the 4-byte header), `packet` (sequence ids and
//! whole frames), `reader` (frames out of received buffers), `wire`, `schema`
//! and `codec` (the messages and their tagged encoding), `session` (the
//! coordinator's decisions), `protocol` (client and server ends). Beside them:
//! `project`, `paths`, `config`, `ui` and `answer` for the registry and the
//! pickers, `text` and `numtext` for text handling.

pub mod error;
pub mod frame;
pub mod packet;
pub mod reader;
pub mod wire;
pub mod schema;
pub mod codec;
pub mod session;
pub mod protocol;
pub mod text;
pub mod numtext;
pub mod paths;
pub mod project;
pub mod answer;
pub mod ui;
pub mod config;

pub use config::Config;
pub use project::Project;
