//! Desktop automation: the decisions behind mouse input and screen capture.
//!
//! The operating-system calls themselves (moving the cursor, sending input
//! events, copying the screen into a bitmap) are made by the surrounding
//! program; this crate computes what those calls are handed and what becomes
//! of what they return.
//!
//! - `mouse`: the input events of presses, releases, clicks, scrolls and drags.
//! - `motion`: timed cursor movements, polled step by step.
//! - `screen`: the screen, its capture buffer, and the images made from a capture.
//! - `imgtools`: cutting a region out of an image.
//! - `image_specs`: the image buffers of the `image` crate as this crate uses them.
//! - `errors`: the failures the crate reports.

pub mod errors;
pub mod image_specs;
pub mod imgtools;
pub mod motion;
pub mod mouse;
pub mod screen;
