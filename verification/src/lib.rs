//! Logic of a small productivity planner: the calendar and text rules,
//! the SQL statements the server sends, and the request parsing around them.

pub mod text;
pub mod util;
pub mod db;
pub mod api;
pub mod server;
