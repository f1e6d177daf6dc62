//! A verified core for a stock-tracking trade simulator.
//!
//! The library models prices and cash in integer cents. It validates raw
//! candle data into a price series, decides Buy/Sell/Hold with a
//! moving-average crossover rule, applies decisions to a simulated
//! per-symbol portfolio, and runs the command-driven registry of tracked
//! symbols that a polling loop operates on. All I/O (HTTP fetching, JSON
//! decoding, logging, the command line) lives outside the library.

pub mod commands;
pub mod engine;
pub mod registry;
pub mod series;
pub mod simulator;
pub mod strategy;
