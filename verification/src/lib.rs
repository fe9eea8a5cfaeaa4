//! A crate for storing data in flash with minimal erase cycles.
//!
//! A flash range is divided in pages. The markers at the start and the end of a page tell whether
//! it is open, partially open or closed, and under which version it was written. Every item here is
//! verified; none touches flash itself (see [`operation`]).

pub mod device;
pub mod error;
pub mod flash_layout;
pub mod geometry;
pub mod le;
pub mod marker;
pub mod operation;
pub mod page_state;
pub mod queue;
pub mod storage;
pub mod text;
pub mod versioning;
pub mod versioning_disabled;

pub use error::Error;
pub use flash_layout::StorageVersion;
pub use geometry::{assert_read_write_sizes, read_write_sizes_are_supported};
pub use page_state::PageState;
pub use storage::verify::VersionPolicy;
pub use storage::{DeletableFlash, GenericStorage};
