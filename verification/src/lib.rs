pub mod common;
pub mod devices;
pub mod house;
pub mod rooms;
