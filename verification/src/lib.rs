//! A mock IMAP server for tests, and the script of the demo client that
//! talks to it.
//!
//! The server answers `LOGIN`, `SELECT`, `FETCH` and `LOGOUT` from canned
//! replies. This library holds what is decided and computed: how a command
//! line is read (`command`), what is written back (`reply`, `fixture`), when
//! a connection ends (`responder`, `session`), which certificate and key the
//! listener presents (`pem`), what the client does next (`script`), and the
//! settings of both (`config`). Sockets, TLS and logging are the caller's.

pub mod bytes;
pub mod command;
pub mod config;
pub mod decimal;
pub mod fixture;
pub mod pem;
pub mod reply;
pub mod responder;
pub mod script;
pub mod session;
