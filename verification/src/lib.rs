//! A spin lock: one value behind a flag that threads take by busy-waiting, and a guard
//! that gives the value out and clears the flag when it goes.
//!
//! [`protocol`] holds the rules: the machine that a thread runs to take the flag, and a
//! model of many threads around one flag, of which mutual exclusion and the other
//! promises of the lock are proved. [`mutex`] holds the lock itself. Its flag can be
//! contended through shared references; its value is lent out under an exclusive borrow
//! of the cell, so that the borrow checker, and the verifier with it, can see who may
//! touch the value.
pub mod mutex;
pub mod protocol;
