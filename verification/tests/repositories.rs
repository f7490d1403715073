use arceus::infrastructure::repositories::sled_game_cache_repo::{game_cache_prefix, game_key, name_index_key, name_index_prefix, parse_game_id, parse_i32, GameIdError};
use arceus::infrastructure::network::packet_handler::handlers::{BatteryStatusHandler, DeviceConnectedHandler, ForegroundAppChangedHandler, VolumeSetResponseHandler, VolumeStatusHandler};
use arceus::net::io::{PacketReadError, ProtocolWriteExt};
use arceus::infrastructure::network::connection_handler::{cleanup_device, register_device};
use arceus::network::device_name_manager::DeviceNamesStore;
use arceus::infrastructure::game::process_manager::{GameConfig, GameProcessManager};
use arceus::infrastructure::repositories::fs_apk_repo::{has_apk_extension_exec, FsApkRepository};
use arceus::infrastructure::repositories::fs_game_version_repo::{
    game_metadata_filename, normalize_separators, plan_game_update, FileAction, GameFile,
};
use arceus::infrastructure::repositories::in_memory_device_repo::{
    Device, InMemoryDeviceRepository, RepositoryError,
};
use std::path::PathBuf;

#[test]
fn apk_urls_and_paths() {
    let repo = FsApkRepository::new(PathBuf::from("/data/apks"), "http://10.0.0.2:8080".to_string());
    assert_eq!(repo.get_apk_url("game.apk"), "http://10.0.0.2:8080/game.apk");
    assert_eq!(repo.get_apk_path("game.apk"), PathBuf::from("/data/apks/game.apk"));
    assert_eq!(repo.get_storage_directory(), PathBuf::from("/data/apks"));
    assert_eq!(repo.base_url(), "http://10.0.0.2:8080");
}

#[test]
fn apk_listing_filters_and_sorts() {
    let repo = FsApkRepository::new(PathBuf::from("/d"), "http://h".to_string());
    let apks = repo.apk_listing(vec![
        ("b.apk".to_string(), 20),
        (".apk".to_string(), 1),
        ("a.apk".to_string(), 10),
        ("c.txt".to_string(), 5),
        ("B.apk".to_string(), 30),
    ]);
    let got: Vec<(String, u64, String)> = apks.into_iter().map(|a| (a.filename, a.size_bytes, a.url)).collect();
    assert_eq!(
        got,
        vec![
            ("B.apk".to_string(), 30, "http://h/B.apk".to_string()),
            ("a.apk".to_string(), 10, "http://h/a.apk".to_string()),
            ("b.apk".to_string(), 20, "http://h/b.apk".to_string()),
        ]
    );
    assert!(has_apk_extension_exec("x.apk"));
    assert!(!has_apk_extension_exec(".apk"));
}

#[test]
fn separators_are_normalized() {
    assert_eq!(normalize_separators("Data\\Managed\\a.dll"), "Data/Managed/a.dll");
    assert_eq!(normalize_separators("plain"), "plain");
    assert_eq!(game_metadata_filename(), "game_metadata.json");
}

#[test]
fn update_plan() {
    let files = vec![
        GameFile { path: "a.exe".to_string(), download_url: "https://x/a".to_string() },
        GameFile { path: "data/b.bin".to_string(), download_url: "https://x/b".to_string() },
    ];
    let plan = plan_game_update(
        vec!["a.exe".to_string(), "old.txt".to_string(), "data/b.bin".to_string()],
        &files,
        &vec![true, false],
    );
    assert_eq!(plan.obsolete, vec!["old.txt".to_string()]);
    match &plan.actions[0] {
        FileAction::Skip { report } => {
            assert_eq!((report.done, report.total), (1, 2));
            assert_eq!(report.label, "Skipped: a.exe");
        }
        _ => panic!(),
    }
    match &plan.actions[1] {
        FileAction::Download { path, url, before, after } => {
            assert_eq!(path, "data/b.bin");
            assert_eq!(url, "https://x/b");
            assert_eq!((before.done, before.total, before.label.as_str()), (1, 2, "data/b.bin"));
            assert_eq!((after.done, after.total), (2, 2));
        }
        _ => panic!(),
    }
}

fn dev(id: u128, serial: &str) -> Device {
    Device::new(id, serial.to_string(), "Unknown".to_string(), "10.0.0.9".to_string())
}

#[test]
fn device_repo_save_and_find() {
    let mut repo = InMemoryDeviceRepository::new();
    assert_eq!(repo.save(dev(1, "S1")), Ok(()));
    assert_eq!(repo.save(dev(2, "S2")), Ok(()));
    assert_eq!(repo.count(), 2);
    assert_eq!(repo.find_by_id(1).unwrap().serial, "S1");
    assert_eq!(repo.find_by_serial(&"S2".to_string()).unwrap().id, 2);
    assert!(repo.find_by_serial(&"S3".to_string()).is_none());
    let mut ids: Vec<u128> = repo.find_all().into_iter().map(|d| d.id).collect();
    ids.sort();
    assert_eq!(ids, vec![1, 2]);
}

#[test]
fn device_repo_serial_change_and_remove() {
    let mut repo = InMemoryDeviceRepository::with_capacity(10);
    repo.save(dev(1, "TEMP")).unwrap();
    repo.save(dev(1, "REAL").with_custom_name(Some("Blue".to_string()))).unwrap();
    assert!(repo.find_by_serial(&"TEMP".to_string()).is_none());
    let found = repo.find_by_serial(&"REAL".to_string()).unwrap();
    assert_eq!(found.custom_name.as_deref(), Some("Blue"));
    assert_eq!(repo.count(), 1);
    assert_eq!(repo.remove(1), Ok(()));
    assert!(repo.find_by_id(1).is_none());
    assert!(repo.find_by_serial(&"REAL".to_string()).is_none());
    assert_eq!(repo.remove(1), Ok(()));
}

#[test]
fn device_repo_capacity() {
    let mut repo = InMemoryDeviceRepository::with_capacity(1);
    repo.save(dev(1, "A")).unwrap();
    assert_eq!(repo.save(dev(2, "B")), Err(RepositoryError::CapacityExceeded { current: 1, max: 1 }));
    assert_eq!(repo.save(dev(1, "A2")), Ok(()));
    assert!(repo.find_by_id(2).is_none());
}

#[test]
fn game_process_manager_keeps_config() {
    let m = GameProcessManager::new(GameConfig { name: "Arena".to_string(), exe_path: PathBuf::from("C:/Combatica/Arena/Arena.exe") });
    assert_eq!(m.config().name, "Arena");
}

#[test]
fn connection_registration_and_cleanup() {
    let mut names = DeviceNamesStore::new();
    names.set_name("31:30:2E:30:1F:90".to_string(), "Green".to_string());
    let mut repo = InMemoryDeviceRepository::with_capacity(1);
    let d = register_device(&mut repo, &names, 7, "10.0.0.3", 8080).unwrap();
    assert_eq!(d.serial, "31:30:2E:30:1F:90");
    assert_eq!(d.model, "Unknown");
    assert_eq!(d.ip_address, "10.0.0.3");
    assert_eq!(d.custom_name.as_deref(), Some("Green"));
    assert_eq!(repo.find_by_serial(&d.serial).unwrap().id, 7);
    assert_eq!(
        register_device(&mut repo, &names, 8, "10.0.0.4", 1).err(),
        Some(RepositoryError::CapacityExceeded { current: 1, max: 1 })
    );
    assert_eq!(cleanup_device(&mut repo, 7).as_deref(), Some("31:30:2E:30:1F:90"));
    assert_eq!(cleanup_device(&mut repo, 7), None);
    assert_eq!(repo.count(), 0);
}

#[test]
fn save_counts_new_devices_only() {
    let mut repo = InMemoryDeviceRepository::with_capacity(3);
    repo.save(dev(1, "A")).unwrap();
    assert_eq!(repo.count(), 1);
    repo.save(dev(1, "A")).unwrap();
    assert_eq!(repo.count(), 1);
    repo.save(dev(2, "B")).unwrap();
    assert_eq!(repo.count(), 2);
}

#[test]
fn device_connected_updates_known_device() {
    let mut names = DeviceNamesStore::new();
    names.set_name("Q3SERIAL".to_string(), "Left".to_string());
    let mut repo = InMemoryDeviceRepository::new();
    repo.save(dev(5, "TEMP")).unwrap();
    let mut payload = Vec::new();
    payload.write_string("Quest 3");
    payload.write_string("Q3SERIAL");
    payload.write_string("2.1.0");
    let h = DeviceConnectedHandler::new();
    let d = h.apply_to_repository(&mut repo, &names, 5, payload.clone()).unwrap().unwrap();
    assert_eq!(d.model, "Quest 3");
    assert_eq!(d.version.as_deref(), Some("2.1.0"));
    assert_eq!(d.custom_name.as_deref(), Some("Left"));
    assert_eq!(d.ip_address, "10.0.0.9");
    assert_eq!(repo.find_by_serial(&"Q3SERIAL".to_string()).unwrap().id, 5);
    assert!(repo.find_by_serial(&"TEMP".to_string()).is_none());
    assert!(h.apply_to_repository(&mut repo, &names, 6, payload).unwrap().is_none());
    assert!(repo.find_by_id(6).is_none());
    let mut short = Vec::new();
    short.write_string("Quest 3");
    short.write_string("Q3SERIAL");
    assert_eq!(h.apply_to_repository(&mut repo, &names, 5, short).err(), Some(PacketReadError::UnexpectedEof));
}

#[test]
fn volume_set_stores_level() {
    let mut repo = InMemoryDeviceRepository::new();
    repo.save(dev(9, "V")).unwrap();
    let mut payload = vec![1u8];
    payload.write_string("Volume set to 60%");
    let h = VolumeSetResponseHandler::new();
    assert_eq!(h.apply_to_repository(&mut repo, 9, payload.clone()), Ok(Some((60, 9, 15))));
    assert_eq!(repo.find_by_id(9).unwrap().volume, Some((9, 15)));
    assert_eq!(h.apply_to_repository(&mut repo, 10, payload), Ok(None));
    let mut failed = vec![0u8];
    failed.write_string("Volume set to 60%");
    assert_eq!(h.apply_to_repository(&mut repo, 9, failed), Ok(None));
}

#[test]
fn status_packets_update_known_devices() {
    let mut repo = InMemoryDeviceRepository::new();
    repo.save(dev(3, "S")).unwrap();
    let battery = BatteryStatusHandler::new();
    assert_eq!(battery.apply_to_repository(&mut repo, 3, vec![77, 1]), Ok((77, true)));
    assert_eq!(repo.find_by_id(3).unwrap().battery, Some((77, true)));
    assert_eq!(battery.apply_to_repository(&mut repo, 4, vec![10, 0]), Ok((10, false)));
    assert!(repo.find_by_id(4).is_none());
    assert_eq!(battery.apply_to_repository(&mut repo, 3, vec![10]), Err(PacketReadError::UnexpectedEof));

    let volume = VolumeStatusHandler::new();
    assert!(volume.store_volume(&mut repo, 3, 7, 15));
    assert_eq!(repo.find_by_id(3).unwrap().volume, Some((7, 15)));
    assert!(!volume.store_volume(&mut repo, 4, 7, 15));

    let mut payload = Vec::new();
    payload.write_string("com.combatica.arena");
    payload.write_string("Arena");
    let fg = ForegroundAppChangedHandler::new();
    let d = fg.apply_to_repository(&mut repo, 3, payload.clone()).unwrap().unwrap();
    assert_eq!(d.running_app.as_deref(), Some("Arena"));
    assert_eq!(d.battery, Some((77, true)));
    assert_eq!(repo.find_by_id(3).unwrap().running_app.as_deref(), Some("Arena"));
    assert!(fg.apply_to_repository(&mut repo, 4, payload).unwrap().is_none());
}

#[test]
fn duplicate_paths_are_downloaded_once() {
    let files = vec![
        GameFile { path: "a.bin".to_string(), download_url: "u1".to_string() },
        GameFile { path: "a.bin".to_string(), download_url: "u2".to_string() },
    ];
    let plan = plan_game_update(vec![], &files, &vec![false, false]);
    assert!(matches!(&plan.actions[0], FileAction::Download { url, .. } if url == "u1"));
    match &plan.actions[1] {
        FileAction::Skip { report } => {
            assert_eq!((report.done, report.total), (2, 2));
            assert_eq!(report.label, "Skipped: a.bin");
        }
        _ => panic!(),
    }
}

#[test]
fn game_cache_keys() {
    assert_eq!(game_key(42), b"game_cache:42".to_vec());
    assert_eq!(game_key(-7), b"game_cache:-7".to_vec());
    assert_eq!(name_index_key("Arena"), b"game_name_index:Arena".to_vec());
    assert_eq!(game_cache_prefix(), b"game_cache:".to_vec());
    assert_eq!(name_index_prefix(), b"game_name_index:".to_vec());
}

#[test]
fn game_id_parsing() {
    assert_eq!(parse_game_id(b"42".to_vec()), Ok(42));
    assert_eq!(parse_game_id(b"-2147483648".to_vec()), Ok(i32::MIN));
    assert_eq!(parse_game_id(b"2147483648".to_vec()), Err(GameIdError::InvalidNumber));
    assert_eq!(parse_game_id(b"4x".to_vec()), Err(GameIdError::InvalidNumber));
    assert_eq!(parse_game_id(vec![0xFF]), Err(GameIdError::InvalidUtf8));
    assert_eq!(parse_i32("+17"), Some(17));
    assert_eq!(parse_i32("-"), None);
    assert_eq!(parse_i32(""), None);
    for s in ["0", "-0", "+5", "2147483647", "-2147483649", "12a", " 1"] {
        assert_eq!(parse_i32(s), s.parse::<i32>().ok());
    }
}
