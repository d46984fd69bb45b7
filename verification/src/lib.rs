//! A memory tester: fill patterns written into two halves of a buffer,
//! the comparison of the halves, and the bookkeeping around a test run.

pub mod interrupt;
pub mod passes;
pub mod random;
pub mod operand_tests;
pub mod compare;
pub mod catalog;
pub mod run;
pub mod text;
pub mod meminfo;
pub mod messages;
pub mod args;
pub mod laws;
