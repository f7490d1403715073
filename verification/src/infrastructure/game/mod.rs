//! Launching the Unity games.
pub mod process_manager;
