//! Wireless network picker: the listing parser, the key-driven state machine
//! and the overlay geometry of a terminal front-end to a network manager.
pub mod layout;
pub mod listing;
pub mod state;
pub mod text;
