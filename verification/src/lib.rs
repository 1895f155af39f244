pub mod budget;
pub mod cleanup;
pub mod controller;
pub mod discovery;
pub mod ec2_manager;
pub mod ident;
pub mod laws;
pub mod model;
pub mod outcome;
pub mod polling;
pub mod protocol;
pub mod report;
pub mod resilience;
pub mod trace;
pub mod validity;
