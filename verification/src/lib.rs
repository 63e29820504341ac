//! Decision logic of a same-host crawler that judges the health of links: link extraction, the
//! admit-or-drop frontier, bounded dispatch, completion tracking and the
//! rendering of per-page results. Nothing here performs I/O; a driver feeds
//! events in and carries out the actions that come back.

pub mod crawl;
pub mod extract;
pub mod fetch;
pub mod header;
pub mod pattern;
pub mod report;
pub mod status;
pub mod text;
pub mod weburl;
