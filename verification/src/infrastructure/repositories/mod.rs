//! Repositories: the logic of the stores that keep APK files, game
//! installations and the devices that are connected.
pub mod fs_apk_repo;
pub mod fs_game_version_repo;
pub mod in_memory_device_repo;
pub mod sled_game_cache_repo;
