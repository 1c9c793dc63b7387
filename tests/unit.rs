use enterprise_data_processor::config::{ProcessorConfig, RetryConfig};
use enterprise_data_processor::error::Error;
use enterprise_data_processor::json::JsonValue;
use enterprise_data_processor::metrics::{MetricsRecorder, Timer};
use enterprise_data_processor::pipeline::PipelineBuilder;
use enterprise_data_processor::processor::Processor;
use enterprise_data_processor::record::{Record, RecordStatus};
use enterprise_data_processor::storage::{CachedStorage, InMemoryStorage, Storage};
use enterprise_data_processor::transform::{
    EnrichTransform, NormalizeTransform, RecordTransform, Transform,
};
use enterprise_data_processor::validation::{
    FieldRule, NonEmptyStringRule, RequiredFieldRule, ValidationRule, Validator,
};
use enterprise_data_processor::VERSION;

fn text(s: &str) -> JsonValue {
    JsonValue::Str(s.to_string())
}

fn object(fields: &[(&str, JsonValue)]) -> JsonValue {
    JsonValue::Object(fields.iter().map(|(k, v)| (k.to_string(), v.clone())).collect())
}

fn field_text(v: &JsonValue, key: &str) -> Option<String> {
    v.get(key).and_then(|x| x.as_str()).cloned()
}

#[test]
fn test_default_config() {
    let config = ProcessorConfig::default();
    assert!(config.validate().is_ok());
}

#[test]
fn test_config_builder() {
    let config = ProcessorConfig::builder().max_batch_size(500).max_workers(8).build();
    assert_eq!(config.max_batch_size, 500);
    assert_eq!(config.max_workers, 8);
}

#[test]
fn test_invalid_config() {
    let config = ProcessorConfig::builder().max_batch_size(0).build();
    assert!(config.validate().is_err());
}

#[test]
fn test_backoff_calculation() {
    let retry_config = RetryConfig::default();
    let backoff = retry_config.calculate_backoff(2);
    assert!(backoff > retry_config.initial_backoff);
    assert!(backoff <= retry_config.max_backoff);
}

#[test]
fn test_error_creation() {
    let err = Error::config("test config error");
    assert_eq!(err.code(), "CONFIG_ERROR");
    assert!(!err.is_retryable());
}

#[test]
fn test_retryable_errors() {
    let timeout = Error::timeout("test timeout");
    assert!(timeout.is_retryable());
}

#[test]
fn test_version() {
    assert!(!VERSION.is_empty());
}

#[test]
fn test_metrics_recorder() {
    let recorder = MetricsRecorder::new(true);
    let _ = recorder.record_processed(100, true);
    let _ = recorder.record_batch_processed(10, 500);
    let _ = recorder.update_active_tasks(5);
}

#[test]
fn test_pipeline_execution() {
    let mut validator = Validator::new();
    validator.add_rule(FieldRule::Required(RequiredFieldRule::new("name")));

    let transform = RecordTransform::Enrich(EnrichTransform::new(
        "enrich",
        "processed",
        JsonValue::Bool(true),
    ));

    let storage = InMemoryStorage::new();

    let mut pipeline = PipelineBuilder::new("test_pipeline")
        .validate(validator)
        .transform(transform)
        .store(storage)
        .build();

    let record = Record::new("test", object(&[("name", text("test"))]));
    let result = pipeline.execute(record).unwrap();

    assert!(matches!(result.value.get("processed"), Some(JsonValue::Bool(true))));
    assert_eq!(pipeline.storage_at(2).unwrap().count().unwrap(), 1);
}

#[test]
fn pipeline_test_pipeline_validation_failure() {
    let mut validator = Validator::new();
    validator.add_rule(FieldRule::Required(RequiredFieldRule::new("name")));

    let mut pipeline = PipelineBuilder::<InMemoryStorage>::new("test_pipeline")
        .validate(validator)
        .build();

    let record = Record::new("test", object(&[]));
    let result = pipeline.execute(record);

    assert!(result.is_err());
}

#[test]
fn test_processor_creation() {
    let config = ProcessorConfig::default();
    let processor = Processor::new(config).unwrap();
    assert_eq!(processor.total_records(), 0);
}

#[test]
fn test_process_single_record() {
    let mut processor = Processor::new(ProcessorConfig::default()).unwrap();
    let record = Record::new("test_key", text("test_value"));

    let result = processor.process(record).unwrap();
    assert!(result.success);
    assert_eq!(processor.total_records(), 1);
}

#[test]
fn test_process_batch() {
    let mut processor = Processor::new(ProcessorConfig::default()).unwrap();

    let records: Vec<_> = (0..10)
        .map(|i| Record::new(&format!("key_{}", i), text(&format!("value_{}", i))))
        .collect();

    let results = processor.process_batch(records).unwrap();
    assert_eq!(results.len(), 10);
    assert!(results.iter().all(|r| r.success));
}

#[test]
fn test_record_creation() {
    let record = Record::new("test_key", text("test_value"));
    assert_eq!(record.key, "test_key");
    assert_eq!(record.metadata.status, RecordStatus::Pending);
}

#[test]
fn test_record_builder() {
    let record = Record::builder()
        .key("test_key")
        .value(text("test_value"))
        .source("test_source")
        .tag("env", "production")
        .build()
        .unwrap();

    assert_eq!(record.key, "test_key");
    assert_eq!(record.metadata.source, "test_source");
    assert_eq!(record.get_tag("env"), Some(&"production".to_string()));
}

#[test]
fn test_record_status_updates() {
    let mut record = Record::new("test", text("value"));

    record.mark_processing();
    assert_eq!(record.metadata.status, RecordStatus::Processing);
    assert_eq!(record.metadata.process_count, 1);

    record.mark_completed();
    assert_eq!(record.metadata.status, RecordStatus::Completed);

    record.mark_failed("test error");
    assert_eq!(record.metadata.status, RecordStatus::Failed);
    assert_eq!(record.metadata.failure_count, 1);
}

#[test]
fn record_test_record_tags() {
    let mut record = Record::new("test", text("value"));

    record.add_tag("env", "dev");
    assert!(record.has_tag("env"));
    assert_eq!(record.get_tag("env"), Some(&"dev".to_string()));

    record.remove_tag("env");
    assert!(!record.has_tag("env"));
}

#[test]
fn test_in_memory_storage() {
    let mut storage = InMemoryStorage::new();
    let record = Record::new("test_key", text("test_value"));
    let id = record.id;

    storage.store(&record).unwrap();
    assert_eq!(storage.count().unwrap(), 1);

    let retrieved = storage.get(id).unwrap();
    assert!(retrieved.is_some());
    assert_eq!(retrieved.unwrap().key, "test_key");

    let mut updated = record.clone();
    updated.update_value(text("new_value"));
    storage.update(&updated).unwrap();

    let deleted = storage.delete(id).unwrap();
    assert!(deleted);
    assert_eq!(storage.count().unwrap(), 0);
}

#[test]
fn test_cached_storage() {
    let inner = InMemoryStorage::new();
    let mut storage = CachedStorage::new(inner, 10);

    let record = Record::new("test_key", text("test_value"));
    let id = record.id;

    storage.store(&record).unwrap();

    let retrieved1 = storage.get(id).unwrap();
    assert!(retrieved1.is_some());

    let retrieved2 = storage.get(id).unwrap();
    assert!(retrieved2.is_some());
}

#[test]
fn test_enrich_transform() {
    let transform = EnrichTransform::new("test_enrich", "timestamp", text("2024-01-01T00:00:00Z"));

    let record = Record::new("test", object(&[("name", text("test"))]));
    let result = transform.transform(record).unwrap();
    assert_eq!(field_text(&result.value, "timestamp"), Some("2024-01-01T00:00:00Z".to_string()));
}

#[test]
fn test_normalize_transform() {
    let transform = NormalizeTransform::new("test_normalize", vec!["name".to_string()]);

    let record = Record::new("test", object(&[("name", text("  JOHN DOE  "))]));
    let result = transform.transform(record).unwrap();
    assert_eq!(field_text(&result.value, "name"), Some("john doe".to_string()));
}

#[test]
fn test_required_field_rule() {
    let rule = RequiredFieldRule::new("name");

    let mut record = Record::new("test", object(&[("name", text("value"))]));
    assert!(rule.validate(&record).is_ok());

    record.update_value(object(&[]));
    assert!(rule.validate(&record).is_err());
}

#[test]
fn test_non_empty_string_rule() {
    let rule = NonEmptyStringRule::new("name");

    let record = Record::new("test", object(&[("name", text("value"))]));
    assert!(rule.validate(&record).is_ok());

    let empty_record = Record::new("test", object(&[("name", text(""))]));
    assert!(rule.validate(&empty_record).is_err());
}

#[test]
fn test_validator() {
    let mut validator = Validator::new();
    validator.add_rule(FieldRule::Required(RequiredFieldRule::new("name")));
    validator.add_rule(FieldRule::NonEmptyString(NonEmptyStringRule::new("name")));

    let record = Record::new("test", object(&[("name", text("John"))]));
    assert!(validator.validate(&record).is_ok());

    let invalid_record = Record::new("test", object(&[]));
    assert!(validator.validate(&invalid_record).is_err());
}

#[test]
fn timer_reports_its_operation() {
    let recorder = MetricsRecorder::new(true);
    let timer = Timer::new("test_operation", recorder);
    let (elapsed, sample) = timer.stop();
    assert_eq!(sample.name, "operation_duration_ms");
    assert_eq!(sample.value, elapsed);
    assert_eq!(sample.label, Some(("operation".to_string(), "test_operation".to_string())));
}
