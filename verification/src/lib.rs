//! Scroll-aware navigation over a lazily growing list of commits.
//!
//! The crate decides, frame by frame, which items of the list fit on a screen
//! of a given height, keeps a cursor consistent with that window, asks for
//! more items when the cursor nears the end of what is loaded, and lets an
//! item be expanded to show the body of its message. It performs no input or
//! output itself: a front end feeds it key presses and fetched data and draws
//! the rows it plans.

pub mod action;
pub mod expansion;
pub mod input;
pub mod menu;
pub mod message;
pub mod paged_list;
pub mod render;
pub mod viewport;
