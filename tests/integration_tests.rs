use enterprise_data_processor::config::ProcessorConfig;
use enterprise_data_processor::error::Error;
use enterprise_data_processor::json::{JsonNumber, JsonValue};
use enterprise_data_processor::pipeline::PipelineBuilder;
use enterprise_data_processor::processor::Processor;
use enterprise_data_processor::record::Record;
use enterprise_data_processor::storage::{InMemoryStorage, Storage};
use enterprise_data_processor::transform::{EnrichTransform, NormalizeTransform, RecordTransform};
use enterprise_data_processor::validation::{
    FieldRule, NonEmptyStringRule, RequiredFieldRule, Validator,
};

fn text(s: &str) -> JsonValue {
    JsonValue::Str(s.to_string())
}

fn object(fields: &[(&str, JsonValue)]) -> JsonValue {
    JsonValue::Object(fields.iter().map(|(k, v)| (k.to_string(), v.clone())).collect())
}

fn field_text(v: &JsonValue, key: &str) -> Option<String> {
    v.get(key).and_then(|x| x.as_str()).cloned()
}

#[test]
fn test_end_to_end_processing() {
    let config = ProcessorConfig::builder()
        .max_batch_size(50)
        .max_workers(4)
        .operation_timeout(5000)
        .build();

    let mut processor = Processor::new(config).unwrap();

    let record = Record::new(
        "user_001",
        object(&[
            ("name", text("Alice Johnson")),
            ("email", text("alice@example.com")),
            ("age", JsonValue::Number(JsonNumber::PosInt(28))),
        ]),
    );

    let result = processor.process(record).unwrap();
    assert!(result.success);
    assert_eq!(processor.total_records(), 1);
}

#[test]
fn test_batch_processing_with_mixed_results() {
    let mut processor = Processor::new(ProcessorConfig::default()).unwrap();

    let records = vec![
        Record::new("valid_1", object(&[("data", text("value1"))])),
        Record::new("valid_2", object(&[("data", text("value2"))])),
        Record::new("valid_3", object(&[("data", text("value3"))])),
    ];

    let results = processor.process_batch(records).unwrap();

    assert_eq!(results.len(), 3);
    assert!(results.iter().all(|r| r.success));
}

#[test]
fn test_pipeline_with_validation_and_transforms() {
    let mut validator = Validator::new();
    validator.add_rule(FieldRule::Required(RequiredFieldRule::new("email")));
    validator.add_rule(FieldRule::NonEmptyString(NonEmptyStringRule::new("name")));

    let normalize =
        RecordTransform::Normalize(NormalizeTransform::new("normalize", vec!["name".to_string()]));

    let enrich = RecordTransform::Enrich(EnrichTransform::new(
        "enrich",
        "processed_at",
        text("2024-01-15T10:00:00Z"),
    ));

    let storage = InMemoryStorage::new();

    let mut pipeline = PipelineBuilder::new("user_pipeline")
        .validate(validator)
        .transform(normalize)
        .transform(enrich)
        .store(storage)
        .build();

    let record = Record::new(
        "user_123",
        object(&[("name", text("  JOHN DOE  ")), ("email", text("john@example.com"))]),
    );

    let result = pipeline.execute(record).unwrap();

    assert_eq!(field_text(&result.value, "name"), Some("john doe".to_string()));
    assert_eq!(field_text(&result.value, "processed_at"), Some("2024-01-15T10:00:00Z".to_string()));

    assert_eq!(pipeline.storage_at(3).unwrap().count().unwrap(), 1);
}

#[test]
fn integration_tests_test_pipeline_validation_failure() {
    let mut validator = Validator::new();
    validator.add_rule(FieldRule::Required(RequiredFieldRule::new("required_field")));

    let mut pipeline = PipelineBuilder::<InMemoryStorage>::new("validation_test")
        .validate(validator)
        .build();

    let record = Record::new("test", object(&[("other_field", text("value"))]));

    let result = pipeline.execute(record);
    assert!(result.is_err());
}

#[test]
fn test_concurrent_processing() {
    let mut processor = Processor::new(ProcessorConfig::default()).unwrap();
    let mut success_count = 0;
    for i in 0..20 {
        let record = Record::new(&format!("key_{}", i), text(&format!("value_{}", i)));
        if let Ok(result) = processor.process(record) {
            if result.success {
                success_count += 1;
            }
        }
    }
    assert_eq!(success_count, 20);
}

#[test]
fn test_record_lifecycle() {
    let mut record = Record::new("test_key", object(&[("initial", text("value"))]));

    assert_eq!(record.metadata.process_count, 0);
    assert_eq!(record.metadata.failure_count, 0);

    record.mark_processing();
    assert_eq!(record.metadata.process_count, 1);

    record.mark_completed();
    assert!(record.metadata.last_error.is_none());

    record.mark_processing();
    assert_eq!(record.metadata.process_count, 2);

    record.mark_failed("Test error");
    assert_eq!(record.metadata.failure_count, 1);
    assert!(record.metadata.last_error.is_some());
}

#[test]
fn test_storage_operations() {
    let mut storage = InMemoryStorage::new();

    let record1 = Record::new("key1", text("value1"));
    let record2 = Record::new("key2", text("value2"));

    let id1 = record1.id;
    let _id2 = record2.id;

    storage.store(&record1).unwrap();
    storage.store(&record2).unwrap();

    assert_eq!(storage.count().unwrap(), 2);

    let retrieved = storage.get(id1).unwrap();
    assert!(retrieved.is_some());

    let ids = storage.list().unwrap();
    assert_eq!(ids.len(), 2);

    let deleted = storage.delete(id1).unwrap();
    assert!(deleted);
    assert_eq!(storage.count().unwrap(), 1);

    storage.clear().unwrap();
    assert_eq!(storage.count().unwrap(), 0);
}

#[test]
fn test_error_handling_and_retry_logic() {
    let config_error = Error::config("test config error");
    assert_eq!(config_error.code(), "CONFIG_ERROR");
    assert!(!config_error.is_retryable());

    let timeout_error = Error::timeout("test timeout");
    assert_eq!(timeout_error.code(), "TIMEOUT");
    assert!(timeout_error.is_retryable());

    let config = ProcessorConfig::default();
    let backoff = config.retry_config.calculate_backoff(0);
    assert_eq!(backoff, config.retry_config.initial_backoff);

    let backoff2 = config.retry_config.calculate_backoff(1);
    assert!(backoff2 > config.retry_config.initial_backoff);
}

#[test]
fn integration_tests_test_record_tags() {
    let mut record = Record::new("test", text("value"));

    record.add_tag("environment", "production");
    record.add_tag("region", "us-west-2");
    record.add_tag("priority", "high");

    assert!(record.has_tag("environment"));
    assert_eq!(record.get_tag("environment"), Some(&"production".to_string()));

    let removed = record.remove_tag("priority");
    assert_eq!(removed, Some("high".to_string()));
    assert!(!record.has_tag("priority"));
}

#[test]
fn test_processor_statistics() {
    let mut processor = Processor::new(ProcessorConfig::default()).unwrap();

    assert_eq!(processor.total_records(), 0);
    assert_eq!(processor.active_tasks(), 0);

    let records: Vec<_> = (0..5)
        .map(|i| Record::new(&format!("key_{}", i), text(&format!("value_{}", i))))
        .collect();

    for record in records {
        processor.process(record).unwrap();
    }

    assert_eq!(processor.total_records(), 5);

    processor.clear_records();
    assert_eq!(processor.total_records(), 0);
}
