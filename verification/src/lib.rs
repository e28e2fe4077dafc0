//! Projections of bibliographic dump records.
//!
//! A dump is a tab-separated table whose fifth column holds a JSON entity,
//! either an author or a work. The library decodes that entity and projects
//! each row into a flattened metadata row ([`format`]) or into
//! author-to-work association rows ([`assign`]).

use vstd::prelude::*;

pub mod config;
pub mod json;
pub mod projection;
pub mod record;
pub mod table;
pub mod text;

pub use crate::config::{Config, Task};
pub use crate::json::Json;
pub use crate::projection::{run, Mode, Outcome, Report, RunError};
pub use crate::record::{decode, AuthorKey, AuthorReference, DecodeError, Entity, Record};
pub use crate::table::{ReadError, ReaderSettings, WriterSettings};
pub use crate::text::clean_string;

use crate::projection::ran;

verus! {

/// Lists the authors of the works in the dump `input`: for each work one row
/// for each of its authors, in their order, holding the work's key and the
/// author's key. A work without authors and an author give no row.
pub fn assign(input: &[u8]) -> (result: Result<Report, RunError>)
    ensures
        ran(Mode::Assign, input@, result),
{
    run(Mode::Assign, input)
}

/// Flattens the dump `input` into metadata rows: for each record its key,
/// revision and time of last change, then its cleaned name and personal
/// name (for an author) or title and subtitle (for a work).
pub fn format(input: &[u8]) -> (result: Result<Report, RunError>)
    ensures
        ran(Mode::Format, input@, result),
{
    run(Mode::Format, input)
}

} // verus!
