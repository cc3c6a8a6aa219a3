pub mod acceptance_laws;
pub mod bytes;
pub mod codec;
pub mod decode;
pub mod decoder;
pub mod describe;
pub mod encode;
pub mod error_text;
pub mod format_laws;
pub mod frame;
pub mod message;
pub mod payload_laws;
pub mod state;
pub mod state_laws;
pub mod stream_laws;
pub mod types;
