//! The response pipeline of a chat bot: merging a run's output streams, cutting a reply to the
//! platform's limits, acknowledging commands in either invocation mode, and deciding what each
//! platform event calls for.

pub mod ack;
pub mod emoji;
pub mod events;
pub mod merge;
pub mod text;
pub mod truncate;

pub use events::Data;
pub use merge::merge_output_and_errors;
