//! The store-backed operations of the core: pool maintenance, the lottery
//! draw, the queue ledger, the event clock and performer sessions.

pub mod dj_service;
pub mod event_service;
pub mod lottery_service;
pub mod session_recorder_service;
pub mod session_service;
pub mod store;
