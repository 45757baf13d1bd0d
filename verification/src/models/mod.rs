//! Data model of the core: performers, lottery records, the event session
//! and performer sessions, all over plain integers and strings.

pub mod dj;
pub mod event_session;
pub mod lottery;
pub mod session;
