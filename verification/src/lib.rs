//! An Intcode virtual machine and the puzzle solvers that are built on it.
//!
//! The machine executes programs held in a flat, zero-extended store of
//! integer cells. It owns no input or output device: [`IntcodeVM::run`]
//! returns to its caller whenever the program halts, emits a value or asks for
//! a value it has not been given.
//!
//! [`machine`] holds the mathematical model of the machine, over which every
//! contract of [`memory`], [`instruction`] and [`vm`] is stated, and [`laws`]
//! what follows from it for every program. [`session`] drives a machine for a
//! host within a bound, and the modules `day01` to `day14` solve one puzzle
//! each, most of them by driving a machine.

pub mod cell;
pub mod error;
pub mod instruction;
pub mod laws;
pub mod machine;
pub mod memory;
pub mod vm;

pub mod hashing;
pub mod number;
pub mod session;
pub mod text;

pub mod day01;
pub mod day02;
pub mod day03;
pub mod day04;
pub mod day05;
pub mod day06;
pub mod day07;
pub mod day08;
pub mod day09;
pub mod day10;
pub mod day11;
pub mod day12;
pub mod day13;
pub mod day14;

pub use vm::IntcodeVM;
pub use vm::VMResult;
