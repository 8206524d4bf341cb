use file_sync::config::get_monitoring_file_detail_path;
use file_sync::config::initialize_server_configs;
use file_sync::config::is_master_role;
use file_sync::config::ConfigServicePub;
use file_sync::config::ServerConfig;
use file_sync::distribution::RequestServicePub;
use file_sync::errors::SyncError;
use file_sync::file_service::path_join;
use file_sync::file_service::BucketEntry;
use file_sync::file_service::FileServicePub;
use file_sync::hash_store::HashStorage;
use file_sync::hash_utils::conpute_hash;
use file_sync::ingestion::handle_upload;
use file_sync::middleware::CheckIp;
use file_sync::time_utils::Date;
use file_sync::time_utils::DateTime;
use file_sync::watch_service::WatchServicePub;

fn server_config() -> ServerConfig {
    ServerConfig {
        role: String::from("master"),
        host: String::from("10.0.0.1:8080"),
        master_address: Some(vec![String::from("10.0.0.1")]),
        slave_address: Some(vec![
            String::from("10.0.0.2:8080"),
            String::from("10.0.0.3:8080"),
        ]),
        watch_path: String::from("/data/"),
        specific_files: vec![String::from("dict.txt"), String::from("stop.txt")],
        io_bound_improvement: true,
        slave_backup_path: Some(String::from("/backup")),
        elastic_host: None,
        elastic_id: None,
        elastic_pw: None,
        backup_days: Some(7),
        hash_storage_path: Some(String::from("/var/hs")),
        secure_mode: None,
        key_directory: None,
    }
}

#[test]
fn allow_listed_ip_is_admitted_and_others_rejected() {
    let guard = CheckIp::new(vec![String::from("10.0.0.1"), String::from("10.0.0.5")]);
    assert!(guard.is_allowed("10.0.0.1"));
    assert!(guard.is_allowed("10.0.0.5"));
    assert!(!guard.is_allowed("10.0.0.2"));
    assert!(!guard.is_allowed(""));
    assert!(!guard.is_allowed("10.0.0.10"), "matching is exact-string only");
    let empty = CheckIp::new(Vec::new());
    assert!(!empty.is_allowed("10.0.0.1"));
    assert!(guard.check("10.0.0.1").is_ok());
    assert_eq!(guard.check("10.9.9.9"), Err(SyncError::AccessDenied));
}

#[test]
fn retention_prunes_past_the_horizon_and_keeps_the_rest() {
    let service = FileServicePub::new();
    let today = Date { year: 2024, month: 6, day: 15 };
    let backup_days = 7i64;
    let entries = vec![
        BucketEntry { name: String::from("20240607"), is_dir: true },
        BucketEntry { name: String::from("20240609"), is_dir: true },
        BucketEntry { name: String::from("20240608"), is_dir: true },
        BucketEntry { name: String::from("20240601"), is_dir: false },
        BucketEntry { name: String::from("notadate"), is_dir: true },
    ];
    let doomed = service.backup_file_delete(&entries, &today, backup_days);
    assert_eq!(doomed, vec![String::from("20240607"), String::from("20240608")]);
}

#[test]
fn retention_boundary_is_at_least() {
    let service = FileServicePub::new();
    let today = Date { year: 2024, month: 6, day: 15 };
    let exactly = BucketEntry { name: String::from("20240608"), is_dir: true };
    assert!(service.should_prune(&exactly, &today, 7), "age == horizon is pruned");
    let younger = BucketEntry { name: String::from("20240609"), is_dir: true };
    assert!(!service.should_prune(&younger, &today, 7));
}

#[test]
fn event_paths_lose_the_long_path_marker() {
    let service = FileServicePub::new();
    assert_eq!(service.clean_event_path("\\\\?\\C:/data/dict.txt"), "C:/data/dict.txt");
    assert_eq!(service.clean_event_path("/data/dict.txt"), "/data/dict.txt");
    assert_eq!(service.clean_event_path("a\\\\?\\b"), "ab");
    assert_eq!(service.clean_event_path(""), "");
}

#[test]
fn paths_join_with_a_single_separator() {
    assert_eq!(path_join("/data", "dict.txt"), "/data/dict.txt");
    assert_eq!(path_join("/data/", "dict.txt"), "/data/dict.txt");
    assert_eq!(path_join("", "dict.txt"), "dict.txt");
}

#[test]
fn monitoring_list_resolves_absolute_paths() {
    let config = initialize_server_configs(server_config());
    let list = get_monitoring_file_detail_path(&config);
    assert_eq!(list.len(), 2);
    assert_eq!(list[0].file_path, "dict.txt");
    assert_eq!(list[0].full_file_path, "/data/dict.txt");
    assert_eq!(list[1].full_file_path, "/data/stop.txt");
}

#[test]
fn config_getters_hand_back_what_was_loaded() {
    let service = ConfigServicePub::new(initialize_server_configs(server_config()));
    assert_eq!(service.get_role(), "master");
    assert!(is_master_role(&service.get_role()));
    assert!(!is_master_role("slave"));
    assert_eq!(service.get_watch_dir_info(), "/data/");
    assert_eq!(
        service.get_slave_address().unwrap(),
        vec![String::from("10.0.0.2:8080"), String::from("10.0.0.3:8080")]
    );
    assert_eq!(
        service.get_watch_file_list(),
        vec![String::from("/data/dict.txt"), String::from("/data/stop.txt")]
    );
    assert_eq!(service.get_host_info(), "10.0.0.1:8080");
    assert_eq!(
        service.get_master_address().unwrap(),
        vec![String::from("10.0.0.1")]
    );
    assert_eq!(service.get_slave_backup_path().unwrap(), "/backup");
    let mut without = server_config();
    without.slave_address = None;
    without.master_address = None;
    without.slave_backup_path = None;
    let service = ConfigServicePub::new(initialize_server_configs(without));
    assert_eq!(service.get_slave_address(), Err(SyncError::ConfigError));
    assert_eq!(service.get_master_address(), Err(SyncError::ConfigError));
    assert_eq!(service.get_slave_backup_path(), Err(SyncError::ConfigError));
}

#[test]
fn server_config_defaults() {
    let mut c = server_config();
    assert!(!c.is_secure_mode());
    c.secure_mode = Some(true);
    assert!(c.is_secure_mode());
    assert_eq!(c.get_key_directory(), "keys");
    c.key_directory = Some(String::from("/etc/sync/keys"));
    assert_eq!(c.get_key_directory(), "/etc/sync/keys");
    assert_eq!(c.get_watch_dir_path(), "/data/");
}

#[test]
fn upload_plan_lays_out_backup_and_destination() {
    let now = DateTime {
        date: Date { year: 2024, month: 6, day: 15 },
        hour: 10,
        minute: 11,
        second: 12,
    };
    let plan = handle_upload("dict.txt", "/data", "backup", &now);
    assert_eq!(plan.dest_path, "/data/dict.txt");
    assert_eq!(plan.backup_bucket, "backup/20240615");
    assert_eq!(plan.backup_file, "backup/20240615/dict.txt.2024_06_15_101112");
}

#[test]
fn changed_dictionary_reaches_both_slaves_and_lands_in_backups() {
    // The master sees /data/dict.txt change from one digest to another.
    let mut store = HashStorage::empty(String::from("/var/hs"));
    let old_bytes = b"old words".to_vec();
    let new_bytes = b"new words".to_vec();
    assert!(store.detect_change("/data/dict.txt", Some(&old_bytes)));
    let changed = store.detect_change("/data/dict.txt", Some(&new_bytes));
    assert!(changed, "a different digest counts as a change");
    assert_eq!(store.get_hash("/data/dict.txt"), conpute_hash(&new_bytes));

    // The coordinator fans the file out to both configured slaves.
    let coordinator = RequestServicePub::new();
    let plan = coordinator
        .send_info_to_slave(&server_config(), "/data/dict.txt")
        .unwrap();
    assert_eq!(plan.tasks.len(), 2);
    assert_eq!(plan.tasks[0].url, "http://10.0.0.2:8080/upload?filename=dict.txt");
    assert_eq!(plan.tasks[1].url, "http://10.0.0.3:8080/upload?filename=dict.txt");

    // Each slave backs up its old copy, then overwrites it.
    let now = DateTime {
        date: Date { year: 2024, month: 6, day: 15 },
        hour: 9,
        minute: 0,
        second: 5,
    };
    let plan_on_slave = handle_upload(&plan.file_name, "/data", "backup", &now);
    assert_eq!(plan_on_slave.dest_path, "/data/dict.txt");
    assert_eq!(plan_on_slave.backup_file, "backup/20240615/dict.txt.2024_06_15_090005");

    // A watch-side check on the slave would also see the new content as changed.
    let watch = WatchServicePub::new();
    let mut slave_store = HashStorage::empty(String::from("/var/hs"));
    assert!(slave_store.detect_change("/data/dict.txt", Some(&old_bytes)));
    assert!(watch.comparison_file(&mut slave_store, "/data/dict.txt", Some(&new_bytes)));
}
