//! A focus timer that grows a garden.
//!
//! Finishing a timed session adds one growth point to the plant in progress,
//! books the session in the statistics and extends the streak of active days.
//! Every function here is verified against the contract it states.

pub mod app;
pub mod clock;
pub mod daily;
pub mod garden;
pub mod input;
pub mod plant;
pub mod report;
pub mod storage;
pub mod theme;
pub mod timer;
