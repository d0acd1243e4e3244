//! Diagnostics-and-discovery substrate: a source-text symbol index and
//! call-site locator, a fallible-result model whose error records carry
//! attributed locations, a durable dual-stream log entry format, and the
//! decision core of a direct-connect-then-subnet-sweep host discovery.
pub mod discover;
pub mod fail;
pub mod json;
pub mod locate;
pub mod sink;
pub mod symbols;
pub mod text;

pub use discover::{candidates, Action, Connection, Discovery, Phase, PhaseKind};
pub use fail::{fail, fail_at, Attempt, ExtResult, Fail, MapOption};
pub use json::{Convert, JSON};
pub use locate::{ErrDetails, ExtLocation, Locator, Site};
pub use sink::format_log;
pub use symbols::{
    extract_fn, extract_impl, extract_mod, extract_trait, line_entry, next, CallMap, Type,
};
