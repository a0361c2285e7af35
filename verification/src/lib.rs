//! A hierarchical task network planner for a fleet of imaging satellites.
//!
//! The world is a set of satellites that carry instruments. An instrument is
//! switched on, calibrated against its calibration target and then used to
//! take images of directions in the modes it supports. The planner searches,
//! depth first and with backtracking, for a sequence of primitive operators
//! that brings a start state to one that meets a goal.
//!
//! - [`quantity`]: fixed-point numbers for fuel, time and data.
//! - [`table`]: ordered lookup tables.
//! - [`operators`]: the world state, the goal and the five operators.
//! - [`methods`]: the three methods that split tasks into smaller ones.
//! - [`planner`]: the search for a plan.
//! - [`depth`]: why the search is complete at the depth it goes to.
//! - [`laws`]: what holds of every state, step and plan.
//! - [`pddl_parser`]: from a problem description to a state and a goal.
pub mod depth;
pub mod laws;
pub mod methods;
pub mod operators;
pub mod pddl_parser;
pub mod planner;
pub mod quantity;
pub mod table;
