//! Server-side WebSocket framing: an incremental frame decoder, the codec
//! around it, message assembly, and the opening handshake response.

pub mod buffer;
pub mod codec;
pub mod error;
pub mod frame;
pub mod handshake;
pub mod laws;
pub mod message;
pub mod session;

pub use codec::WebsocketCodec;
pub use error::{WebsocketError, WebsocketResult};
pub use frame::{Frame, FrameBuilder, Opcode};
pub use message::Message;
pub use session::{Inbound, Step};
