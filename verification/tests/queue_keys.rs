use jobqueue::service::{
    derive_queue_name, failed_key, job_key, processing_key, succeeded_key, waiting_key,
    QueueConfig, QueueManager, WorkerGuard,
};
use jobqueue::store::MemStore;

#[test]
fn queue_name_is_namespaced_by_environment() {
    assert_eq!(derive_queue_name("production", "email"), "production_email_queue");
    assert_eq!(derive_queue_name("test", "billing"), "test_billing_queue");
}

#[test]
fn list_and_record_keys_hang_off_the_queue_name() {
    let qn = "test_email_queue";
    assert_eq!(waiting_key(qn), "test_email_queue:waiting");
    assert_eq!(processing_key(qn), "test_email_queue:processing");
    assert_eq!(succeeded_key(qn), "test_email_queue:succeeded");
    assert_eq!(failed_key(qn), "test_email_queue:failed");
    assert_eq!(job_key(qn, "42"), "test_email_queue:job:42");
}

#[test]
fn create_queue_carries_config_over() {
    let mut config = QueueConfig::new("redis://localhost:6379/0".to_string(), "prod".to_string());
    config.remove_on_success = false;
    let manager = QueueManager::init(config);
    let q = manager.create_queue("email", 7);
    assert_eq!(q.get_name(), "prod_email_queue");
    assert_eq!(q.max_retries, 7);
    assert!(!q.remove_on_success);
    assert!(!q.remove_on_failure);
}

#[test]
fn default_queue_config_flags() {
    let config = QueueConfig::new("redis://h:1/0".to_string(), "dev".to_string());
    assert!(config.remove_on_success);
    assert!(!config.remove_on_failure);
    assert_eq!(config.environment, "dev");
}

#[test]
fn health_check_reflects_store_reachability() {
    let config = QueueConfig::new("redis://h:1/0".to_string(), "dev".to_string());
    let manager = QueueManager::init(config);
    let mut store = MemStore::new();
    assert!(manager.health_check(&store));
    store.set_available(false);
    assert!(!manager.health_check(&store));
}

#[test]
fn worker_starts_exactly_once() {
    let mut guard = WorkerGuard::new();
    assert!(guard.try_start());
    assert!(!guard.try_start());
    assert!(!guard.try_start());
}
