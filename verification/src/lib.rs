//! A declarative terminal-menu toolkit.
//!
//! The heart of the crate is [`term::TrackedTerm`], a line-accounting model
//! for a terminal "page": it counts how many screen lines the current page
//! has written and how far the cursor has been moved back up into them, so
//! that the page can erase exactly its own output and return the cursor to
//! the scrollback log above it.  Menu pages are built from the item types in
//! [`items`] and composed into navigable menus by [`menu::Directory`], whose
//! selection loop is modelled as an explicit state machine.
//!
//! Everything here is plain bookkeeping on values; the process that drives a
//! real terminal performs the writes, key reads and widget prompts that the
//! accounting prescribes.

#![allow(unused_imports)]

pub mod items;
pub mod menu;
pub mod term;

pub use items::Function;
pub use items::Paragraph;
pub use items::MenuItem;
pub use items::Text;
pub use items::Toggle;
pub use menu::DirState;
pub use menu::Directory;
pub use menu::Item;
pub use term::ResetAction;
pub use term::TrackedTerm;
