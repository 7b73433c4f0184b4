//! Fleet authentication and relay transport.
pub mod buffer;
pub mod cache;
pub mod chain;
pub mod document;
pub mod eggs;
pub mod enroll;
pub mod envelope;
pub mod folding;
pub mod follow;
pub mod frame;
pub mod framing;
pub mod handshake;
pub mod keymap;
pub mod keys;
pub mod outbox;
pub mod pending;
pub mod pipe;
pub mod reach;
pub mod roster;
pub mod screen;
pub mod sealer;
pub mod stream;
pub mod text;
pub mod transport;
pub mod viewer;
pub mod writing;
