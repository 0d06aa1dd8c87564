use stream_meta::builder::{get_stream_setting_fts_fields, stream_res};
use stream_meta::codec::{decode, encode};
use stream_meta::delete::{DeleteAction, DeleteEvent, DeleteState, delete_outcome, delete_start,
    delete_stream};
use stream_meta::service::{get_stream, get_streams, save_stream_settings};
use stream_meta::stats::{StreamStats, transform_stats};
use stream_meta::types::{DeleteStage, SchemaField, StreamError, StreamLocation, StreamSchema,
    StreamSettings, StreamType};

fn schema_one_field() -> StreamSchema {
    StreamSchema {
        fields: vec![SchemaField { name: "f.c".to_string(), data_type: "Int32".to_string() }],
        metadata: Vec::new(),
    }
}

fn schema_with_settings(blob: &str) -> StreamSchema {
    StreamSchema {
        fields: vec![SchemaField { name: "f.c".to_string(), data_type: "Int32".to_string() }],
        metadata: vec![("settings".to_string(), blob.to_string())],
    }
}

#[test]
fn test_transform_stats() {
    let mut stats = StreamStats::default();
    let res = transform_stats(&mut stats);
    assert_eq!(stats, res);
}

#[test]
fn test_stream_res() {
    let stats = StreamStats::default();
    let schema = schema_one_field();
    let res = stream_res("Test", StreamType::Logs, &schema, Some(stats), true).unwrap();
    assert_eq!(res.stats, stats);
}

#[test]
fn test_get_stream_setting_fts_fields() {
    let sch = schema_one_field();
    let res = get_stream_setting_fts_fields(&sch);
    assert!(res.is_ok());
}

#[test]
fn decode_without_settings_is_all_default() {
    let metadata = vec![("created_at".to_string(), "123".to_string())];
    let settings = decode(&metadata).unwrap();
    assert_eq!(settings, StreamSettings::default());
    assert!(settings.partition_keys.is_empty());
    assert!(settings.full_text_search_keys.is_empty());
    assert!(!settings.skip_schema_validation);
    assert_eq!(settings.data_retention, 0);
}

#[test]
fn decode_partition_keys_sorted_by_blob_keys() {
    let metadata = vec![(
        "settings".to_string(),
        "{\"partition_keys\": {\"b\": \"region\", \"a\": \"tenant\"}}".to_string(),
    )];
    let settings = decode(&metadata).unwrap();
    assert_eq!(settings.partition_keys, vec!["tenant".to_string(), "region".to_string()]);
}

#[test]
fn decode_malformed_settings_is_hard_error() {
    let metadata = vec![("settings".to_string(), "{oops".to_string())];
    assert_eq!(decode(&metadata), Err(StreamError::MalformedSettings));
}

#[test]
fn decode_mismatched_fields_fall_back_to_defaults() {
    let metadata = vec![(
        "settings".to_string(),
        "{\"partition_keys\": 7, \"full_text_search_keys\": [1], \"skip_schema_validation\": \"x\", \"data_retention\": true}".to_string(),
    )];
    let settings = decode(&metadata).unwrap();
    assert_eq!(settings, StreamSettings::default());
}

#[test]
fn encode_decode_round_trip() {
    let settings = StreamSettings {
        partition_keys: vec!["tenant".to_string(), "region".to_string(), "zone".to_string()],
        full_text_search_keys: vec!["log".to_string(), "message".to_string()],
        skip_schema_validation: true,
        data_retention: 30,
    };
    let blob = encode(&settings);
    let metadata = vec![("settings".to_string(), blob)];
    let decoded = decode(&metadata).unwrap();
    assert_eq!(decoded, settings);
}

#[test]
fn encode_decode_round_trip_escaped_names() {
    let settings = StreamSettings {
        partition_keys: vec!["a\"b".to_string(), "c\\d".to_string(), "e\nf".to_string()],
        full_text_search_keys: vec!["g\th".to_string()],
        skip_schema_validation: false,
        data_retention: -5,
    };
    let blob = encode(&settings);
    let metadata = vec![("settings".to_string(), blob)];
    let decoded = decode(&metadata).unwrap();
    assert_eq!(decoded, settings);
}

#[test]
fn transform_stats_converts_bytes_to_mib_hundredths() {
    let mut stats = StreamStats {
        doc_time_min: 1,
        doc_time_max: 2,
        doc_num: 3,
        file_num: 4,
        storage_size: 2097152,
        compressed_size: 1048576,
    };
    let res = transform_stats(&mut stats);
    assert_eq!(res.storage_size, 200);
    assert_eq!(res.compressed_size, 100);
    assert_eq!(res.doc_num, 3);
    assert_eq!(res.doc_time_min, 1);
    assert_eq!(res.doc_time_max, 2);
    assert_eq!(res.file_num, 4);
}

#[test]
fn transform_stats_largest_sizes_do_not_overflow() {
    let mut stats = StreamStats {
        storage_size: u64::MAX,
        compressed_size: u64::MAX,
        ..StreamStats::default()
    };
    let res = transform_stats(&mut stats);
    assert_eq!(res.storage_size, 1759218604441600);
    assert_eq!(res.compressed_size, 1759218604441600);
}

#[test]
fn encode_decode_round_trip_extreme_retention() {
    let settings = StreamSettings {
        partition_keys: Vec::new(),
        full_text_search_keys: Vec::new(),
        skip_schema_validation: false,
        data_retention: i64::MIN,
    };
    let blob = encode(&settings);
    let metadata = vec![("settings".to_string(), blob)];
    assert_eq!(decode(&metadata).unwrap(), settings);
}

#[test]
fn get_stream_empty_schema_is_not_found_even_with_stats() {
    let schema = StreamSchema { fields: Vec::new(), metadata: Vec::new() };
    let stats = StreamStats { storage_size: 2097152, ..StreamStats::default() };
    let res = get_stream("s1", StreamType::Logs, &schema, stats, true);
    assert_eq!(res, Err(StreamError::NotFound));
}

#[test]
fn get_stream_normalizes_stats() {
    let schema = schema_one_field();
    let stats = StreamStats { storage_size: 2097152, ..StreamStats::default() };
    let res = get_stream("s1", StreamType::Logs, &schema, stats, false).unwrap();
    assert_eq!(res.stats.storage_size, 200);
    assert_eq!(res.storage_type, "s3".to_string());
    assert_eq!(res.name, "s1".to_string());
}

#[test]
fn get_streams_keeps_order_and_substitutes_defaults() {
    let locations = vec![
        StreamLocation {
            stream_name: "first".to_string(),
            stream_type: StreamType::Logs,
            schema: schema_one_field(),
        },
        StreamLocation {
            stream_name: "second".to_string(),
            stream_type: StreamType::Metrics,
            schema: schema_one_field(),
        },
    ];
    let stats_list = vec![
        StreamStats::default(),
        StreamStats { storage_size: 1048576, ..StreamStats::default() },
    ];
    let streams = get_streams(locations, &stats_list, true).unwrap();
    assert_eq!(streams.len(), 2);
    assert_eq!(streams[0].name, "first".to_string());
    assert_eq!(streams[1].name, "second".to_string());
    assert_eq!(streams[0].stats, StreamStats::default());
    assert_eq!(streams[1].stats.storage_size, 100);
}

#[test]
fn save_settings_rejected_while_deleting() {
    let metadata = Vec::new();
    let settings = StreamSettings::default();
    let res = save_stream_settings(&metadata, &settings, true);
    assert_eq!(res, Err(StreamError::Conflict));
}

#[test]
fn save_settings_writes_blob_and_stamps_once() {
    let settings = StreamSettings {
        partition_keys: vec!["tenant".to_string()],
        full_text_search_keys: Vec::new(),
        skip_schema_validation: false,
        data_retention: 7,
    };
    let metadata = Vec::new();
    let saved = save_stream_settings(&metadata, &settings, false).unwrap();
    let created: Vec<&(String, String)> =
        saved.iter().filter(|e| e.0 == "created_at").collect();
    assert_eq!(created.len(), 1);
    let decoded = decode(&saved).unwrap();
    assert_eq!(decoded, settings);

    let stamped = vec![("created_at".to_string(), "42".to_string())];
    let saved2 = save_stream_settings(&stamped, &settings, false).unwrap();
    let created2: Vec<&(String, String)> =
        saved2.iter().filter(|e| e.0 == "created_at").collect();
    assert_eq!(created2.len(), 1);
    assert_eq!(created2[0].1, "42".to_string());
}

#[test]
fn delete_with_no_versions_is_not_found_and_stops() {
    let (start, first_action) = delete_start();
    assert_eq!(first_action, DeleteAction::FetchVersions);
    let (state, action) = delete_stream(start, DeleteEvent::VersionsFetched { any: false });
    assert_eq!(state, DeleteState::NotFound);
    assert_eq!(action, DeleteAction::Stop);
    assert_eq!(delete_outcome(&state), Some(Err(StreamError::NotFound)));
}

#[test]
fn delete_failing_at_compaction_mark_touches_nothing_else() {
    let (start, _) = delete_start();
    let (s1, a1) = delete_stream(start, DeleteEvent::VersionsFetched { any: true });
    assert_eq!(s1, DeleteState::SchemaChecked);
    assert_eq!(a1, DeleteAction::MarkCompactionPending);
    let (s2, a2) = delete_stream(s1, DeleteEvent::Failed { cause: "compactor down".to_string() });
    assert_eq!(a2, DeleteAction::Stop);
    assert_eq!(
        s2,
        DeleteState::Failed {
            stage: DeleteStage::CompactionMark,
            cause: "compactor down".to_string()
        }
    );
    assert_eq!(
        delete_outcome(&s2),
        Some(Err(StreamError::SubsystemFailure {
            stage: DeleteStage::CompactionMark,
            cause: "compactor down".to_string()
        }))
    );
}

#[test]
fn delete_happy_path_reaches_done() {
    let (mut state, mut action) = delete_start();
    assert_eq!(action, DeleteAction::FetchVersions);
    let events = vec![
        DeleteEvent::VersionsFetched { any: true },
        DeleteEvent::Succeeded,
        DeleteEvent::Succeeded,
        DeleteEvent::Succeeded,
        DeleteEvent::Succeeded,
        DeleteEvent::Succeeded,
    ];
    let mut actions = Vec::new();
    for event in events {
        let (next, a) = delete_stream(state, event);
        actions.push(a);
        state = next;
        action = a;
    }
    assert_eq!(state, DeleteState::Done);
    assert_eq!(action, DeleteAction::Stop);
    assert_eq!(
        actions,
        vec![
            DeleteAction::MarkCompactionPending,
            DeleteAction::DeleteSchemaVersions,
            DeleteAction::ClearCaches,
            DeleteAction::DeleteCompactionOffset,
            DeleteAction::Report,
            DeleteAction::Stop,
        ]
    );
    assert_eq!(delete_outcome(&state), Some(Ok(())));
}

#[test]
fn stream_res_reads_settings_and_backend_label() {
    let schema = schema_with_settings(
        "{\"partition_keys\": {\"x\": \"tenant\"}, \"full_text_search_keys\": [\"log\"], \"skip_schema_validation\": true, \"data_retention\": 14}",
    );
    let stream = stream_res("Test", StreamType::Traces, &schema, None, true).unwrap();
    assert_eq!(stream.storage_type, "disk".to_string());
    assert_eq!(stream.stats, StreamStats::default());
    assert_eq!(stream.schema.len(), 1);
    assert_eq!(stream.schema[0].name, "f.c".to_string());
    assert_eq!(stream.schema[0].prop_type, "Int32".to_string());
    assert_eq!(stream.settings.partition_keys, vec!["tenant".to_string()]);
    assert_eq!(stream.settings.full_text_search_keys, vec!["log".to_string()]);
    assert!(stream.settings.skip_schema_validation);
    assert_eq!(stream.settings.data_retention, 14);
}

#[test]
fn fts_fields_come_back_in_blob_order() {
    let schema = schema_with_settings(
        "{\"full_text_search_keys\": [\"b\", \"a\", \"c\"]}",
    );
    let fields = get_stream_setting_fts_fields(&schema).unwrap();
    assert_eq!(fields, vec!["b".to_string(), "a".to_string(), "c".to_string()]);
}
