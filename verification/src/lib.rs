//! Splitting a paginated document into parts of near-equal length.
//!
//! The crate plans how the pages of a source document are divided among a
//! number of output parts, each optionally opening with the same intro pages,
//! and decides, step by step, what a driver has to ask of the document engine
//! to materialise that plan. It performs no I/O itself.

pub mod error;
pub mod model;
pub mod naming;
pub mod orchestrator;
pub mod plan;
pub mod protocol;
pub mod text;

pub use error::{ErrorKind, SplitError};
pub use model::{Event, PageRange, SplitArgs, SplitResult};
pub use naming::part_file_name;
pub use orchestrator::{EmptyParts, Orchestrator};
pub use protocol::{Command, Reply};
pub use plan::{calculate_ranges, plan_split};
