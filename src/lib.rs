//! Capital-routing portfolio simulator: a portfolio model, built-in allocation
//! strategies, a step-wise simulator, risk and performance metrics, and a
//! Monte Carlo stress-testing engine.
pub mod decimal;
pub mod types;
pub mod strategy;
pub mod simulator;
pub mod risk;
pub mod monte_carlo;
pub mod portfolio;
pub mod utils;
pub mod optimizer;
pub mod market;
