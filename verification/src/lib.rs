//! Session-routing resolution library.
//!
//! Given a query line `<project-id> <session-id>` and the contents of the
//! project's routing table, the library decides which backend `host:port`
//! token serves the session. Parsing, sanitization, table-file naming and
//! line matching are all verified; reading the input stream and the table
//! files themselves is left to the embedding program.

pub mod matcher;
pub mod query;
pub mod resolve;
pub mod table;
pub mod text;
