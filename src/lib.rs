//! Construction and memory layout of the two rings that an io_uring instance
//! shares between a process and the kernel.
//!
//! The system calls themselves (`io_uring_setup`, `mmap`, `munmap`, `close`)
//! are performed by the caller; this library decides what to map, checks the
//! layout the kernel reports, derives the address of every shared field and
//! keeps track of which resources must be released.
pub mod error;
pub mod layout;
pub mod mapping;
pub mod queue;
pub mod ring;
pub mod setup;

pub use error::{Cause, RingError};
pub use layout::{check_pow2, CqOffsets, Params, RegionLens, SqOffsets, WORD_SIZE};
pub use mapping::{Mapping, Region};
pub use queue::{CompletionQueue, CqField, SqField, SubmissionQueue};
pub use ring::{IoUring, Resource};
pub use setup::{Action, Event, RingBuilder, Stage};
