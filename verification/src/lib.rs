pub mod buffer;
pub mod dispatch;
pub mod laws;
pub mod ops;
pub mod position;
pub mod presenter;
pub mod state;
pub mod tags;
