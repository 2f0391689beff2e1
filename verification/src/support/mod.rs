//! Helpers shared by the catalog and the pipeline.

pub mod clock;
pub mod convert;
pub mod event_loop;
pub mod path;
pub mod random;
pub mod sequence;
pub mod text;

pub use self::convert::{ErrToString, ToNone};
pub use self::event_loop::EventLoop;
pub use self::path::ExtensionIs;
