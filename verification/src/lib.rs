//! From `viewsvn://` invocation URLs to launches of the Subversion log
//! viewer, and the registration of this program as the handler of that URL
//! scheme.
//!
//! - [`dispatch`] turns an invocation URL into the command to launch, gate by
//!   gate, and judges what came of the launch.
//! - [`registrar`] lists the writes that register the handler and says what
//!   they do to a store; [`registry`] is such a store, kept in memory.
//! - [`invocation`] chooses between the two from the command line.
//! - [`web_url`] is the way into the URL parser, [`text_map`] the map that
//!   query parameters and key values are kept in, [`text`] reads and writes
//!   decimal numbers, and [`diagnostics`] turns what is missing into a text
//!   to report.

pub mod diagnostics;
pub mod dispatch;
pub mod invocation;
pub mod registrar;
pub mod registry;
pub mod text;
pub mod text_map;
pub mod web_url;
