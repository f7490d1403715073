pub mod game;
pub mod network;
pub mod protocol;
pub mod repositories;
pub mod sensor;
