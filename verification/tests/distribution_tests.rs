use file_sync::config::ServerConfig;
use file_sync::distribution::file_name_of_path;
use file_sync::distribution::upload_url;
use file_sync::distribution::DistributionStrategy;
use file_sync::distribution::RequestServicePub;
use file_sync::distribution::TaskOutcome;
use file_sync::elastic::audit_index_name;
use file_sync::elastic::ElasticMsg;
use file_sync::elastic::EsRepositoryPub;
use file_sync::errors::SyncError;
use file_sync::time_utils::Date;
use file_sync::time_utils::DateTime;
use file_sync::transport::initialize_request_clients;

fn config_with_slaves(slaves: Option<Vec<&str>>, io_bound: bool, secure: Option<bool>) -> ServerConfig {
    ServerConfig {
        role: String::from("master"),
        host: String::from("10.0.0.1:8080"),
        master_address: None,
        slave_address: slaves.map(|v| v.into_iter().map(String::from).collect()),
        watch_path: String::from("/data/"),
        specific_files: vec![String::from("dict.txt")],
        io_bound_improvement: io_bound,
        slave_backup_path: Some(String::from("/backup")),
        elastic_host: None,
        elastic_id: None,
        elastic_pw: None,
        backup_days: Some(7),
        hash_storage_path: Some(String::from("/var/hs")),
        secure_mode: secure,
        key_directory: None,
    }
}

#[test]
fn builds_upload_urls() {
    assert_eq!(
        upload_url(false, "10.0.0.2:8080", "dict.txt"),
        "http://10.0.0.2:8080/upload?filename=dict.txt"
    );
    assert_eq!(
        upload_url(true, "10.0.0.2:8080", "dict.txt"),
        "https://10.0.0.2:8080/upload?filename=dict.txt"
    );
}

#[test]
fn resolves_file_names() {
    assert_eq!(file_name_of_path("/a/b/c.txt"), "c.txt");
    assert_eq!(file_name_of_path("file"), "file");
    assert_eq!(file_name_of_path("/a/b/"), "");
    assert_eq!(file_name_of_path(""), "");
}

#[test]
fn plans_one_task_per_slave() {
    let service = RequestServicePub::new();
    let config = config_with_slaves(
        Some(vec!["10.0.0.2:8080", "10.0.0.3:8080", "10.0.0.4:8080"]),
        true,
        None,
    );
    let plan = service.send_info_to_slave(&config, "/data/dict.txt").unwrap();
    assert_eq!(plan.strategy, DistributionStrategy::IoOptimized);
    assert_eq!(plan.file_name, "dict.txt");
    assert_eq!(plan.tasks.len(), 3);
    for (task, slave) in plan.tasks.iter().zip(["10.0.0.2:8080", "10.0.0.3:8080", "10.0.0.4:8080"]) {
        assert_eq!(task.slave, slave);
        assert_eq!(task.url, format!("http://{}/upload?filename=dict.txt", slave));
        assert_eq!(task.file_path, "/data/dict.txt");
    }
}

#[test]
fn memory_strategy_and_secure_scheme() {
    let service = RequestServicePub::new();
    let config = config_with_slaves(Some(vec!["s1:1"]), false, Some(true));
    let plan = service.send_info_to_slave(&config, "/data/dict.txt").unwrap();
    assert_eq!(plan.strategy, DistributionStrategy::MemoryOptimized);
    assert_eq!(plan.tasks[0].url, "https://s1:1/upload?filename=dict.txt");
}

#[test]
fn missing_slave_list_is_a_config_error() {
    let service = RequestServicePub::new();
    let config = config_with_slaves(None, true, None);
    assert!(matches!(
        service.send_info_to_slave(&config, "/data/dict.txt"),
        Err(SyncError::ConfigError)
    ));
}

#[test]
fn path_without_file_name_cannot_be_distributed() {
    let service = RequestServicePub::new();
    let config = config_with_slaves(Some(vec!["s1:1"]), true, None);
    assert!(matches!(
        service.send_info_to_slave(&config, "/data/"),
        Err(SyncError::IoError)
    ));
}

#[test]
fn one_failing_slave_turns_the_call_into_an_aggregate_error() {
    let service = RequestServicePub::new();
    let outcomes = vec![TaskOutcome::Success, TaskOutcome::Failed, TaskOutcome::Success];
    assert!(matches!(
        service.handle_async_function(&outcomes),
        Err(SyncError::TransportError)
    ));
    let panicked = vec![TaskOutcome::Panicked];
    assert!(service.handle_async_function(&panicked).is_err());
}

#[test]
fn all_successes_aggregate_to_ok() {
    let service = RequestServicePub::new();
    assert!(service
        .handle_async_function(&vec![TaskOutcome::Success, TaskOutcome::Success])
        .is_ok());
    assert!(service.handle_async_function(&vec![]).is_ok());
}

#[test]
fn response_status_classification() {
    let client = initialize_request_clients();
    assert!(client.send_file_outcome(Some(200)).is_ok());
    assert!(client.send_file_outcome(Some(204)).is_ok());
    assert!(client.send_file_outcome(Some(299)).is_ok());
    assert_eq!(
        client.send_file_outcome(Some(199)),
        Err(SyncError::TransportStatus(199))
    );
    assert_eq!(
        client.send_file_outcome(Some(300)),
        Err(SyncError::TransportStatus(300))
    );
    assert_eq!(
        client.send_file_outcome(Some(404)),
        Err(SyncError::TransportStatus(404)),
        "a non-success status is surfaced, naming the status"
    );
    assert_eq!(
        client.send_file_outcome(None),
        Err(SyncError::TransportError)
    );
}

#[test]
fn audit_records_carry_the_attempt() {
    let msg = ElasticMsg::new(
        "10.0.0.1:8080",
        "10.0.0.2:8080",
        "/data/dict.txt",
        "success",
        "master task",
    )
    .unwrap();
    assert_eq!(msg.from_host, "10.0.0.1:8080");
    assert_eq!(msg.to_host, "10.0.0.2:8080");
    assert_eq!(msg.file_path, "/data/dict.txt");
    assert_eq!(msg.task_status, "success");
    assert_eq!(msg.task_detail, "master task");
    assert_eq!(msg.timestamp.len(), 20);
    assert!(msg.timestamp.ends_with('Z'));
}

#[test]
fn audit_record_for_a_known_instant() {
    let now = DateTime {
        date: Date { year: 2024, month: 6, day: 15 },
        hour: 10,
        minute: 11,
        second: 12,
    };
    let msg = ElasticMsg::with_timestamp(
        now,
        "10.0.0.1:8080",
        "10.0.0.2:8080",
        "/data/dict.txt",
        "failed",
        "master task",
    );
    assert_eq!(msg.timestamp, "2024-06-15T10:11:12Z");
    assert_eq!(msg.task_status, "failed");
}

#[test]
fn audit_index_is_day_bucketed() {
    assert_eq!(audit_index_name("20240615"), "file_sync_log_20240615");
}

#[test]
fn audit_sink_urls_weave_in_the_account() {
    let repo = EsRepositoryPub::new(
        vec![String::from("es1:9200"), String::from("es2:9200")],
        "user",
        "pw",
    )
    .unwrap();
    assert_eq!(repo.auth_urls[0], "http://user:pw@es1:9200");
    assert_eq!(repo.auth_urls[1], "http://user:pw@es2:9200");
    assert_eq!(repo.hosts.len(), 2);
}
