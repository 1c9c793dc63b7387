use enterprise_data_processor::config::{ProcessorConfig, RetryConfig};
use enterprise_data_processor::error::Error;
use enterprise_data_processor::json::JsonValue;
use enterprise_data_processor::metrics::{MetricKind, MetricsRecorder};
use enterprise_data_processor::pipeline::PipelineBuilder;
use enterprise_data_processor::processor::Processor;
use enterprise_data_processor::record::{Record, RecordStatus};
use enterprise_data_processor::storage::{CachedStorage, InMemoryStorage, Storage};
use enterprise_data_processor::metrics::{elapsed_between, Timer};
use enterprise_data_processor::transform::{
    normalize_text, text_starts_with, EnrichTransform, KeyPrefixFilter, NormalizeTransform,
    RecordTransform, Transform,
};
use enterprise_data_processor::validation::{FieldRule, RequiredFieldRule, Validator};

fn text(s: &str) -> JsonValue {
    JsonValue::Str(s.to_string())
}

fn object(fields: &[(&str, JsonValue)]) -> JsonValue {
    JsonValue::Object(fields.iter().map(|(k, v)| (k.to_string(), v.clone())).collect())
}

fn field_text(v: &JsonValue, key: &str) -> Option<String> {
    v.get(key).and_then(|x| x.as_str()).cloned()
}

#[test]
fn zero_sizes_are_refused_and_positive_ones_accepted() {
    for config in [
        ProcessorConfig::builder().max_batch_size(0).build(),
        ProcessorConfig::builder().max_workers(0).build(),
        ProcessorConfig::builder().buffer_size(0).build(),
    ] {
        assert!(matches!(Processor::new(config), Err(Error::Config(_))));
    }
    let config = ProcessorConfig::builder().max_batch_size(1).max_workers(1).buffer_size(1).build();
    assert!(Processor::new(config).is_ok());
}

#[test]
fn inconsistent_retry_settings_are_refused() {
    let retry = RetryConfig { max_attempts: 3, initial_backoff: 500, max_backoff: 100, backoff_multiplier: 2 };
    let config = ProcessorConfig::builder().retry_config(retry).build();
    assert!(matches!(config.validate(), Err(Error::Config(_))));
    let retry = RetryConfig { max_attempts: 0, ..RetryConfig::default() };
    assert!(ProcessorConfig::builder().retry_config(retry).build_validated().is_err());
    let retry = RetryConfig { backoff_multiplier: 1, ..RetryConfig::default() };
    assert!(retry.validate().is_err());
}

#[test]
fn backoff_grows_then_caps() {
    let retry = RetryConfig::default();
    assert_eq!(retry.calculate_backoff(0), 100);
    assert_eq!(retry.calculate_backoff(3), 800);
    assert_eq!(retry.calculate_backoff(7), 10_000);
    assert_eq!(retry.calculate_backoff(u32::MAX), 10_000);
}

#[test]
fn slots_refused_beyond_the_workers() {
    let config = ProcessorConfig::builder().max_workers(2).build();
    let mut processor = Processor::new(config).unwrap();
    let a = processor.begin(Record::new("a", text("1"))).unwrap();
    let _b = processor.begin(Record::new("b", text("2"))).unwrap();
    assert_eq!(processor.active_tasks(), 2);
    let refused = processor.begin(Record::new("c", text("3")));
    assert!(matches!(refused, Err(Error::Concurrency(_))));
    assert!(matches!(processor.process(Record::new("d", text("4"))), Err(Error::Concurrency(_))));
    assert_eq!(processor.total_records(), 2);
    let copy = a.clone();
    let result = processor.complete(a, Ok(copy), 0);
    assert!(result.success);
    assert_eq!(result.record.metadata.status, RecordStatus::Completed);
    assert_eq!(processor.active_tasks(), 1);
    assert!(processor.begin(Record::new("c", text("3"))).is_ok());
}

#[test]
fn oversized_batch_admits_nothing() {
    let config = ProcessorConfig::builder().max_batch_size(3).build();
    let mut processor = Processor::new(config).unwrap();
    let records: Vec<_> = (0..4).map(|i| Record::new(&format!("k{}", i), text("v"))).collect();
    assert!(matches!(processor.process_batch(records), Err(Error::Processing(_))));
    assert_eq!(processor.total_records(), 0);
    assert_eq!(processor.active_tasks(), 0);
}

#[test]
fn processed_record_is_completed_in_the_table() {
    let mut processor = Processor::new(ProcessorConfig::default()).unwrap();
    processor.register_transform(RecordTransform::Enrich(EnrichTransform::new("tag", "seen", JsonValue::Bool(true))));
    processor.register_transform(RecordTransform::Enrich(EnrichTransform::new("tag", "seen", JsonValue::Bool(false))));
    let record = Record::new("k", object(&[]));
    let id = record.id;
    let result = processor.process(record).unwrap();
    assert!(result.success);
    assert!(result.error.is_none());
    let stored = processor.get_record(id).unwrap();
    assert_eq!(stored.metadata.status, RecordStatus::Completed);
    assert_eq!(stored.metadata.process_count, 1);
    assert!(matches!(stored.value.get("seen"), Some(JsonValue::Bool(false))));
    assert_eq!(processor.active_tasks(), 0);
}

#[test]
fn storage_round_trip() {
    let mut storage = InMemoryStorage::new();
    let record = Record::new("k", object(&[("a", text("b"))]));
    let id = record.id;
    storage.store(&record).unwrap();
    let back = storage.get(id).unwrap().unwrap();
    assert_eq!(back.id, id);
    assert_eq!(back.key, "k");
    assert_eq!(field_text(&back.value, "a"), Some("b".to_string()));
    assert!(storage.delete(id).unwrap());
    assert!(storage.get(id).unwrap().is_none());
    assert!(!storage.delete(id).unwrap());
    storage.store(&record).unwrap();
    storage.clear().unwrap();
    assert_eq!(storage.count().unwrap(), 0);
}

#[test]
fn update_of_missing_record_is_not_found() {
    let mut storage = InMemoryStorage::new();
    let record = Record::new("k", text("v"));
    assert!(matches!(storage.update(&record), Err(Error::NotFound(_))));
}

#[test]
fn cache_evicts_exactly_one_when_full() {
    let mut storage = CachedStorage::new(InMemoryStorage::new(), 2);
    let r1 = Record::new("a", text("1"));
    let r2 = Record::new("b", text("2"));
    let r3 = Record::new("c", text("3"));
    storage.store(&r1).unwrap();
    storage.store(&r2).unwrap();
    assert_eq!(storage.cache_len(), 2);
    storage.store(&r3).unwrap();
    assert_eq!(storage.cache_len(), 2);
    assert!(storage.is_cached(r3.id));
    assert_eq!([r1.id, r2.id].iter().filter(|id| storage.is_cached(**id)).count(), 1);
    assert_eq!(storage.count().unwrap(), 3);
    assert_eq!(storage.inner().count().unwrap(), 3);
}

#[test]
fn cache_answers_from_itself_first() {
    let mut storage = CachedStorage::new(InMemoryStorage::new(), 4);
    let record = Record::new("k", text("v"));
    let id = record.id;
    storage.update(&record).unwrap_err();
    assert!(storage.is_cached(id));
    let hit = storage.get(id).unwrap().unwrap();
    assert_eq!(hit.key, "k");
    assert_eq!(storage.inner().count().unwrap(), 0);
}

#[test]
fn pipeline_stops_at_first_failure() {
    let mut validator = Validator::new();
    validator.add_rule(FieldRule::Required(RequiredFieldRule::new("x")));
    let mut pipeline = PipelineBuilder::new("fail_fast")
        .validate(validator)
        .transform(RecordTransform::Enrich(EnrichTransform::new("add", "y", JsonValue::Bool(true))))
        .store(InMemoryStorage::new())
        .build();
    let result = pipeline.execute(Record::new("k", object(&[("z", text("1"))])));
    assert!(matches!(result, Err(Error::Validation(_))));
    assert_eq!(pipeline.storage_at(2).unwrap().count().unwrap(), 0);
}

#[test]
fn record_lifecycle_counters() {
    let mut record = Record::new("k", text("v"));
    assert_eq!(record.metadata.status, RecordStatus::Pending);
    assert_eq!(record.metadata.version, 1);
    assert_eq!(record.metadata.source, "default");
    record.update_value(text("w"));
    assert_eq!(record.metadata.version, 2);
    record.update_value(text("x"));
    assert_eq!(record.metadata.version, 3);
    record.mark_failed("boom");
    assert_eq!(record.metadata.last_error, Some("boom".to_string()));
    record.mark_completed();
    assert_eq!(record.metadata.last_error, None);
    assert_eq!(record.metadata.failure_count, 1);
}

#[test]
fn record_identities_are_fresh_version_four() {
    let a = Record::new("a", text("1"));
    let b = Record::new("b", text("2"));
    assert_ne!(a.id, b.id);
    assert_eq!((a.id >> 76) & 0xf, 4);
    assert_eq!((a.id >> 62) & 0x3, 2);
    assert!(a.metadata.created_at > 0);
    let built = Record::builder().id(7).key("k").value(text("v")).build().unwrap();
    assert_eq!(built.id, 7);
    assert!(matches!(Record::builder().key("k").build(), Err(Error::Config(_))));
    assert!(matches!(Record::builder().value(text("v")).build(), Err(Error::Config(_))));
}

#[test]
fn end_to_end_email_pipeline() {
    let mut validator = Validator::new();
    validator.add_rule(FieldRule::Required(RequiredFieldRule::new("email")));
    let mut pipeline = PipelineBuilder::new("users")
        .validate(validator)
        .transform(RecordTransform::Normalize(NormalizeTransform::new("n", vec!["name".to_string()])))
        .store(InMemoryStorage::new())
        .build();
    let good = Record::new("u", object(&[("name", text("  JOHN  ")), ("email", text("j@x.com"))]));
    let id = good.id;
    let stored = pipeline.execute(good).unwrap();
    assert_eq!(field_text(&stored.value, "name"), Some("john".to_string()));
    let storage = pipeline.storage_at(2).unwrap();
    assert_eq!(storage.count().unwrap(), 1);
    assert_eq!(storage.list().unwrap(), vec![id]);

    let mut validator = Validator::new();
    validator.add_rule(FieldRule::Required(RequiredFieldRule::new("email")));
    let mut pipeline = PipelineBuilder::new("users")
        .validate(validator)
        .transform(RecordTransform::Normalize(NormalizeTransform::new("n", vec!["name".to_string()])))
        .store(InMemoryStorage::new())
        .build();
    let bad = Record::new("u", object(&[("name", text("x"))]));
    assert!(matches!(pipeline.execute(bad), Err(Error::Validation(_))));
    assert_eq!(pipeline.storage_at(2).unwrap().count().unwrap(), 0);
}

#[test]
fn normal_form_trims_and_lowercases() {
    assert_eq!(normalize_text("  MiXeD Case \t"), "mixed case");
    assert_eq!(normalize_text(""), "");
}

#[test]
fn error_codes_and_texts() {
    let cases = [
        (Error::config("m"), "CONFIG_ERROR", "Configuration error: m"),
        (Error::processing("m"), "PROCESSING_ERROR", "Processing error: m"),
        (Error::storage("m"), "STORAGE_ERROR", "Storage error: m"),
        (Error::invalid_state("m"), "INVALID_STATE", "Invalid state: m"),
        (Error::not_found("m"), "NOT_FOUND", "Resource not found: m"),
        (Error::timeout("m"), "TIMEOUT", "Operation timed out: m"),
        (Error::concurrency("m"), "CONCURRENCY_ERROR", "Concurrent access error: m"),
        (Error::Io("m".to_string()), "IO_ERROR", "I/O error: m"),
        (Error::Serialization("m".to_string()), "SERIALIZATION_ERROR", "Serialization error: m"),
        (Error::Internal("m".to_string()), "INTERNAL_ERROR", "Internal error: m"),
    ];
    for (e, code, describe) in cases.iter() {
        assert_eq!(e.code(), *code);
        assert_eq!(e.describe(), *describe);
    }
    assert!(Error::Io("m".to_string()).is_retryable());
    assert!(Error::concurrency("m").is_retryable());
    assert!(!Error::processing("m").is_retryable());
}

#[test]
fn validation_failure_names_field_and_rule() {
    let mut validator = Validator::new();
    validator.add_rule(FieldRule::Required(RequiredFieldRule::new("email")));
    let record = Record::new("k", object(&[]));
    match validator.validate(&record) {
        Err(Error::Validation(v)) => {
            assert_eq!(v.field, "email");
            assert_eq!(v.rule, "required");
            assert_eq!(v.message, "Field 'email' is required");
            assert_eq!(v.describe(), "Field 'email' failed validation rule 'required': Field 'email' is required");
        },
        _ => panic!("expected a validation error"),
    }
}

#[test]
fn disabled_recorder_reports_nothing() {
    let off = MetricsRecorder::new(false);
    assert!(off.record_processed(1, true).is_empty());
    assert!(off.record_error("x").is_empty());
    let on = MetricsRecorder::new(true);
    let updates = on.record_storage_operation("store", 7, false);
    assert_eq!(updates.len(), 3);
    assert_eq!(updates[1].name, "storage_operations_failed");
    assert_eq!(updates[2].kind, MetricKind::Histogram);
    assert_eq!(updates[2].value, 7);
    assert_eq!(on.update_active_tasks(5)[0].kind, MetricKind::Gauge);
}

#[test]
fn key_prefix_filter_keeps_and_rejects() {
    let filter = KeyPrefixFilter::new("test_filter", "keep_");
    assert!(filter.transform(Record::new("keep_this", text("value"))).is_ok());
    match filter.transform(Record::new("drop_this", text("value"))) {
        Err(e) => assert_eq!(e.describe(), "Processing error: Record filtered out"),
        Ok(_) => panic!("expected a rejection"),
    }
    assert!(text_starts_with("abc", &"".to_string()));
    assert!(!text_starts_with("ab", &"abc".to_string()));
}

#[test]
fn rejected_record_gives_failed_result() {
    let mut processor = Processor::new(ProcessorConfig::default()).unwrap();
    processor.register_transform(RecordTransform::KeyPrefix(KeyPrefixFilter::new("f", "keep_")));
    processor.register_transform(RecordTransform::Enrich(EnrichTransform::new("e", "seen", JsonValue::Bool(true))));
    let record = Record::new("drop_me", object(&[]));
    let id = record.id;
    let result = processor.process(record).unwrap();
    assert!(!result.success);
    assert_eq!(result.error, Some("Processing error: Record filtered out".to_string()));
    assert_eq!(result.record.id, id);
    assert_eq!(result.record.metadata.status, RecordStatus::Processing);
    assert!(result.record.value.get("seen").is_none());
    let stored = processor.get_record(id).unwrap();
    assert_eq!(stored.metadata.status, RecordStatus::Processing);
    assert_eq!(stored.metadata.process_count, 1);
    assert_eq!(processor.active_tasks(), 0);
}

#[test]
fn batch_results_follow_their_records() {
    let mut processor = Processor::new(ProcessorConfig::default()).unwrap();
    processor.register_transform(RecordTransform::KeyPrefix(KeyPrefixFilter::new("f", "keep_")));
    let records = vec![Record::new("keep_a", text("1")), Record::new("drop_b", text("2")), Record::new("keep_c", text("3"))];
    let ids: Vec<u128> = records.iter().map(|r| r.id).collect();
    let results = processor.process_batch(records).unwrap();
    assert_eq!(results.iter().map(|r| r.record.id).collect::<Vec<_>>(), ids);
    assert_eq!(results.iter().map(|r| r.success).collect::<Vec<_>>(), vec![true, false, true]);
    assert_eq!(processor.total_records(), 3);
    assert!(processor.admit_batch(100).is_ok());
    assert!(matches!(processor.admit_batch(101), Err(Error::Processing(_))));
}

#[test]
fn timer_elapsed_is_exact() {
    let timer = Timer::started_at("op", MetricsRecorder::new(false), 100);
    let (elapsed, sample) = timer.stop_at(350);
    assert_eq!(elapsed, 250);
    assert_eq!(sample.value, 250);
    assert_eq!(Timer::started_at("op", MetricsRecorder::new(true), 100).stop_at(50).0, 0);
    assert_eq!(elapsed_between(i64::MIN, i64::MAX), u64::MAX);
}

#[test]
fn cached_delete_then_get_is_none() {
    let mut storage = CachedStorage::new(InMemoryStorage::new(), 3);
    let record = Record::new("k", text("v"));
    let id = record.id;
    storage.store(&record).unwrap();
    assert!(storage.delete(id).unwrap());
    assert!(!storage.is_cached(id));
    assert!(storage.get(id).unwrap().is_none());
    assert!(!storage.delete(id).unwrap());
}

#[test]
fn cache_miss_fills_from_backend() {
    let mut inner = InMemoryStorage::new();
    let record = Record::new("k", text("v"));
    let id = record.id;
    inner.store(&record).unwrap();
    let mut storage = CachedStorage::new(inner, 1);
    assert!(!storage.is_cached(id));
    assert_eq!(storage.get(id).unwrap().unwrap().key, "k");
    assert!(storage.is_cached(id));
}

#[test]
fn pipeline_passes_the_validator_error_through() {
    let mut validator = Validator::new();
    validator.add_rule(FieldRule::Required(RequiredFieldRule::new("x")));
    let mut pipeline = PipelineBuilder::<InMemoryStorage>::new("p")
        .validate(validator)
        .transform(RecordTransform::Enrich(EnrichTransform::new("add", "y", JsonValue::Bool(true))))
        .build();
    match pipeline.execute(Record::new("k", object(&[]))) {
        Err(Error::Validation(e)) => {
            assert_eq!(e.field, "x");
            assert_eq!(e.rule, "required");
        },
        _ => panic!("expected a validation error"),
    }
}

#[test]
fn trim_removes_unicode_white_space() {
    assert_eq!(normalize_text("\u{3000}\u{2003}Ab\u{a0} \n"), "ab");
    assert_eq!(normalize_text("a b"), "a b");
}
