//! A store-and-forward message relay between simulated satellites and a
//! ground station: an ordered mailbox with post/deliver semantics, plus a
//! sending role (the station) and a receiving role (the satellites).

pub mod actors;
pub mod mailbox;
