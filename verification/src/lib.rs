//! Directory listings: decoding of file modes, collection of per-entry
//! records, and the filter, sort and render stages applied to them.

pub mod calendar;
pub mod collect;
pub mod layout;
pub mod listing;
pub mod mode;
pub mod names;
pub mod numbers;
pub mod order;
pub mod pipeline;
pub mod record;
pub mod render;
pub mod select;
