//! Watches a reservation calendar for days with free slots.
pub mod availability;
pub mod handler;
pub mod model;
pub mod notifier;
pub mod page;
pub mod text;
