//! The running parts of the viewer: the event bus and the image pipeline.

pub mod event_system;
pub mod events;
pub mod frames;
pub mod image_system;
pub mod pipeline;
pub mod textures;

pub use self::event_system::EventSystem;
pub use self::events::AppEvent;
pub use self::image_system::ImageSystem;
