//! A registry of meeting codes, one per room, in which an entry lives for a
//! bounded time after it was last written, together with the rules that
//! decide which codes may be written and where a visitor of a room is sent.

pub mod code;
pub mod registry;
pub mod routes;
pub mod script;
pub mod text;
