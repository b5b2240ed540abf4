//! Launch a program with a chosen scheduling priority class and CPU affinity
//! mask: the mapping of user-facing values to OS values, the parsing of those
//! values, and the order in which a launch proceeds, all verified.

pub mod affinity;
pub mod priority;
pub mod session;
