//! Line framing and forwarding for an interactive serial terminal.
//!
//! The library turns raw byte streams into lines and lines back into bytes,
//! and holds the decisions of the forwarding loops and of the session that
//! runs them, as state machines whose contracts are proved.
mod bytes_buf;
pub mod codec;
pub mod config;
pub mod eol;
pub mod forward;
pub mod session;

pub use bytes_buf::bytes_of;
pub use codec::{DecodeError, SerialReadCodec, SerialWriteCodec};
pub use config::{DataBitsExt, DataBitsOpt, StopBitsExt, StopBitsOpt};
pub use eol::Eol;
pub use forward::{Action, Event, Forwarder, LoopError, Phase};
pub use session::{Coordinator, Direction, SessionOutcome};
