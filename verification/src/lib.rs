//! The opening handshake of a WebSocket server: the accept token that answers
//! a client's key, the search for that key in the client's request, the text
//! of the switching-protocols response, and the bookkeeping of the server
//! that listens for connections.

pub mod handshake;
pub mod request;
pub mod request_laws;
pub mod server;
pub mod session;
pub mod token;

pub use server::{create_web_socket_server, WebSocketServer};
pub use token::hash_web_socket_key;
