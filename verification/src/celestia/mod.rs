pub mod frames;
pub mod paths;
pub mod xb;
pub mod tree;
pub mod cosm;
pub mod state;
pub mod chain;
pub mod setup;
pub mod gmat;
pub mod definitions;
pub mod wellformed;
