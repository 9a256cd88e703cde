//! What the operations promise, in terms of what goes in and what comes out.
//!
//! A law here speaks of calls: of their arguments and of any result that they can
//! have. It is proved from the contracts alone, and holds the functions in which
//! these are phrased to what they are for.

pub mod collecting;
pub mod configuring;
pub mod delivering;
pub mod handing_over;
pub mod mapping;
pub mod measuring;
pub mod recording;
pub mod spelling;
