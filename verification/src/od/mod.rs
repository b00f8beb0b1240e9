pub mod snc;
pub mod estimate;
pub mod residual;
pub mod kalman;
pub mod trigger;
pub mod ui;
