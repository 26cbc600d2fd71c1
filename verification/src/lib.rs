//! A fixed-capacity ring of message slots with a delayed, two-behind
//! eviction policy.
//!
//! Each slot holds an identity label and the most recent message routed
//! through it (sender, receiver, payload). Adding an entry writes the slot
//! under the cursor, clears the slot two writes behind it once the ring has
//! warmed up, and advances the cursor with wraparound.

pub mod label;
pub mod ring;
