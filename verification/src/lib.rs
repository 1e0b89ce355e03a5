//! The decisions of a window switcher: which windows and applications are
//! cycled through and in what order, where the switcher's items are drawn,
//! which item a click hits, and how each window message changes the state.
pub mod app;
pub mod message;
pub mod painter;
pub mod window_order;
