use stream_catalog::correlation::{Correlation, CorrelationConfig, CorrelationRequest, CorrelationVersion};
use stream_catalog::routing::{NodeChoice, QuerierMetadata, QueryNodeStats, QueryRouting};
use stream_catalog::status::{
    CorrelationError, CreateStreamError, MetadataError, RBACError, RoleError, StreamError,
};
use stream_catalog::snapshot::{ManifestItem, Snapshot};
use stream_catalog::storage::S3Config;
use stream_catalog::streams::{
    create_update_stream, custom_partition_keys, fetch_headers_from_put_stream_request,
    first_event_at_empty, retention_cleanup, split_text, stats_date, validate_custom_partition, validate_custom_partition_for_schema,
    validate_time_partition_limit, validate_time_with_custom_partition, LogStreamMetadata,
    PutStreamAction, PutStreamHeaders, Stats, StreamInfo,
};

fn node(id: &str) -> QuerierMetadata {
    QuerierMetadata {
        querier_id: id.to_string(),
        domain_name: format!("http://{}:8000/", id),
        port: "8000".to_string(),
        start_time: 5,
    }
}

fn ids(routing: &QueryRouting) -> Vec<&str> {
    routing.info.iter().map(|n| n.querier_id.as_str()).collect()
}

#[test]
fn appended_node_is_known_and_available() {
    let mut routing = QueryRouting::empty();
    routing.append_querier_info(node("q1"));
    routing.append_querier_info(node("q2"));
    assert_eq!(ids(&routing), vec!["q1", "q2"]);
    assert_eq!(routing.available_nodes, vec!["q1", "q2"]);
    assert_eq!(routing.position("q2"), Some(1));
    assert_eq!(routing.position("q3"), None);
    assert_eq!(routing.info[1].domain_name, "http://q2:8000/");
    assert_eq!(routing.stats.len(), 0);
    let mut again = node("q1");
    again.start_time = 77;
    routing.append_querier_info(again);
    assert_eq!(ids(&routing), vec!["q1", "q2"]);
    assert_eq!(routing.info[0].start_time, 77);
    assert_eq!(routing.available_nodes, vec!["q1", "q2"]);
}

#[test]
fn reinstated_node_is_available_again() {
    let mut routing = QueryRouting::empty();
    routing.append_querier_info(node("q1"));
    routing.append_querier_info(node("q2"));
    match routing.get_query_node() {
        NodeChoice::Available(taken) => assert_eq!(taken.querier_id, "q2"),
        _ => panic!("no available node"),
    }
    assert_eq!(routing.available_nodes, vec!["q1"]);
    routing.reinstate_node(node("q2"));
    routing.reinstate_node(node("q1"));
    assert_eq!(routing.available_nodes, vec!["q1", "q2"]);
    assert_eq!(routing.info.len(), 2);
}

#[test]
fn queries_go_to_available_nodes_first() {
    let mut routing = QueryRouting::empty();
    match routing.get_query_node() {
        NodeChoice::NoneKnown => {}
        _ => panic!("a node was chosen"),
    }
    routing.append_querier_info(node("q1"));
    routing.append_querier_info(node("q2"));
    match routing.get_query_node() {
        NodeChoice::Available(taken) => assert_eq!(taken.querier_id, "q2"),
        _ => panic!("no available node"),
    }
    match routing.get_query_node() {
        NodeChoice::Available(taken) => assert_eq!(taken.querier_id, "q1"),
        _ => panic!("no available node"),
    }
    assert!(routing.available_nodes.is_empty());
    match routing.get_query_node() {
        NodeChoice::Known(any) => assert_eq!(any.querier_id, "q1"),
        _ => panic!("no known node"),
    }
    assert_eq!(routing.info.len(), 2);
}

#[test]
fn dead_nodes_are_forgotten() {
    let mut routing = QueryRouting::empty();
    routing.append_querier_info(node("q1"));
    routing.append_querier_info(node("q2"));
    routing.append_querier_info(node("q3"));
    routing.stats.insert(
        "q2".to_string(),
        QueryNodeStats { ticket: "t".to_string(), start_time: 1, hottier_info: None },
    );
    routing.stats.insert(
        "q1".to_string(),
        QueryNodeStats { ticket: "u".to_string(), start_time: 2, hottier_info: None },
    );
    routing.remove_dead_nodes(&vec!["q2".to_string(), "q9".to_string(), "q3".to_string()]);
    assert_eq!(ids(&routing), vec!["q1"]);
    assert_eq!(routing.available_nodes, vec!["q1"]);
    assert_eq!(routing.stats.len(), 1);
    assert!(routing.stats.contains_key("q1"));
    routing.remove_dead_nodes(&Vec::new());
    assert_eq!(ids(&routing), vec!["q1"]);
}

#[test]
fn statuses_of_errors() {
    assert_eq!(RoleError::RoleInUse.status_code(), 400);
    assert_eq!(RoleError::ObjectStorageError("x".into()).status_code(), 500);
    assert_eq!(RBACError::UserExists.status_code(), 400);
    assert_eq!(RBACError::UserDoesNotExist.status_code(), 404);
    assert_eq!(RBACError::SerdeError("x".into()).status_code(), 400);
    assert_eq!(RBACError::ValidationError("x".into()).status_code(), 400);
    assert_eq!(RBACError::ObjectStorageError("x".into()).status_code(), 500);
    assert_eq!(RBACError::Network(None).status_code(), 502);
    assert_eq!(RBACError::Anyhow("x".into()).status_code(), 500);
    assert_eq!(RBACError::RoleValidationError.status_code(), 400);
    assert_eq!(CorrelationError::ObjectStorage("x".into()).status_code(), 500);
    assert_eq!(CorrelationError::Serde("x".into()).status_code(), 400);
    assert_eq!(CorrelationError::Metadata("x").status_code(), 400);
    assert_eq!(CorrelationError::UserDoesNotExist(RBACError::UserDoesNotExist).status_code(), 404);
    assert_eq!(CorrelationError::AnyhowError("x".into()).status_code(), 500);
    assert_eq!(CorrelationError::Unauthorized.status_code(), 400);
}

#[test]
fn statuses_of_stream_errors() {
    let custom = |status| CreateStreamError::Custom { msg: "m".into(), status };
    assert_eq!(StreamError::CreateStream(CreateStreamError::StreamNameValidation("x".into())).status_code(), 400);
    assert_eq!(
        StreamError::CreateStream(CreateStreamError::Storage { stream_name: "s".into(), err: "e".into() })
            .status_code(),
        500
    );
    assert_eq!(StreamError::CreateStream(custom(400)).status_code(), 500);
    assert_eq!(StreamError::CreateStream(CreateStreamError::SerdeError("x".into())).status_code(), 400);
    assert_eq!(StreamError::StreamNotFound("s".into()).status_code(), 404);
    assert_eq!(StreamError::CacheNotEnabled("s".into()).status_code(), 400);
    assert_eq!(StreamError::UninitializedLogstream.status_code(), 405);
    assert_eq!(StreamError::Storage("e".into()).status_code(), 500);
    assert_eq!(StreamError::NoAlertsSet.status_code(), 404);
    assert_eq!(StreamError::BadAlertJson { stream: "s".into(), err: "e".into() }.status_code(), 400);
    assert_eq!(StreamError::AlertValidation("e".into()).status_code(), 400);
    assert_eq!(StreamError::InvalidAlert("a".into()).status_code(), 400);
    assert_eq!(StreamError::InvalidAlertMessage("a".into(), "c".into()).status_code(), 400);
    assert_eq!(StreamError::InvalidRetentionConfig("e".into()).status_code(), 400);
    assert_eq!(StreamError::Custom { msg: "m".into(), status: 417 }.status_code(), 417);
    assert_eq!(StreamError::Anyhow("e".into()).status_code(), 500);
    assert_eq!(StreamError::Network(Some(503)).status_code(), 503);
    assert_eq!(StreamError::Network(None).status_code(), 500);
    assert_eq!(StreamError::SerdeError("e".into()).status_code(), 400);
    assert_eq!(StreamError::HotTierNotEnabled("s".into()).status_code(), 400);
    assert_eq!(StreamError::InvalidHotTierConfig("e".into()).status_code(), 400);
    assert_eq!(StreamError::HotTierValidation("e".into()).status_code(), 400);
    assert_eq!(StreamError::HotTierError("e".into()).status_code(), 500);
}

#[test]
fn metadata_errors_become_stream_errors() {
    match StreamError::from_metadata(MetadataError::StreamMetaNotFound("s".into())) {
        StreamError::StreamNotFound(name) => assert_eq!(name, "s"),
        _ => panic!("another error"),
    }
    match StreamError::from_metadata(MetadataError::StandaloneWithDistributed("why".into())) {
        StreamError::Custom { msg, status } => {
            assert_eq!(msg, "why");
            assert_eq!(status, 500);
        }
        _ => panic!("another error"),
    }
}

fn s3() -> S3Config {
    S3Config {
        endpoint_url: "https://s3.example.com".to_string(),
        access_key_id: Some("key".to_string()),
        secret_key: None,
        region: "eu".to_string(),
        bucket_name: "logs".to_string(),
        set_checksum: false,
        use_path_style: true,
        skip_tls: false,
        imdsv1_fallback: false,
        metadata_endpoint: None,
    }
}

#[test]
fn endpoint_of_a_bucket() {
    let mut config = s3();
    assert_eq!(config.get_endpoint(), "https://s3.example.com/logs");
    assert_eq!(config.get_bucket_name(), "logs");
    assert!(config.credentials().is_none());
    config.secret_key = Some("secret".to_string());
    let (access, secret) = config.credentials().unwrap();
    assert_eq!((access.as_str(), secret.as_str()), ("key", "secret"));
}

fn correlation(id: u128, query: &str) -> CorrelationConfig {
    CorrelationConfig::from_request(
        id,
        CorrelationRequest { version: CorrelationVersion::V1, query: query.to_string() },
    )
}

#[test]
fn table_of_correlations() {
    let mut table = Correlation::new();
    table.load(&vec![correlation(1, "a"), correlation(2, "b")]);
    table.update(&correlation(3, "c"));
    assert_eq!(table.configs.len(), 3);
    table.update(&correlation(1, "a2"));
    let ids: Vec<u128> = table.configs.iter().map(|c| c.id).collect();
    assert_eq!(ids, vec![2, 3, 1]);
    assert_eq!(table.get_correlation_by_id(1).unwrap().query, "a2");
    assert!(table.delete(3));
    assert!(!table.delete(3));
    let ids: Vec<u128> = table.configs.iter().map(|c| c.id).collect();
    assert_eq!(ids, vec![2, 1]);
    match table.get_correlation_by_id(3) {
        Err(CorrelationError::AnyhowError(text)) => {
            assert_eq!(text, "Unable to find correlation with ID- 00000000000000000000000003")
        }
        _ => panic!("a correlation was found"),
    }
}

fn meta(first_event_at: Option<&str>) -> LogStreamMetadata {
    LogStreamMetadata {
        first_event_at: first_event_at.map(|s| s.to_string()),
        time_partition: None,
        time_partition_limit: None,
        custom_partition: None,
        static_schema_flag: None,
        stream_type: None,
        cache_enabled: false,
    }
}

#[test]
fn first_event_at_is_empty_unless_on_record() {
    let mut streams = StreamInfo::new();
    streams.streams.insert("none".to_string(), meta(None));
    streams.streams.insert("blank".to_string(), meta(Some("")));
    streams.streams.insert("set".to_string(), meta(Some("2024-01-15T10:30:00Z")));
    assert!(first_event_at_empty(&streams, "unknown"));
    assert!(first_event_at_empty(&streams, "none"));
    assert!(first_event_at_empty(&streams, "blank"));
    assert!(!first_event_at_empty(&streams, "set"));
    assert!(streams.stream_exists("set"));
    assert!(!streams.stream_exists("unknown"));
}

fn custom(outcome: Result<(), CreateStreamError>) -> Option<(String, u16)> {
    match outcome {
        Err(CreateStreamError::Custom { msg, status }) => Some((msg, status)),
        _ => None,
    }
}

#[test]
fn limit_of_time_partition() {
    assert_eq!(validate_time_partition_limit("30d").ok(), Some("30"));
    assert_eq!(validate_time_partition_limit("+5d").ok(), Some("+5"));
    assert_eq!(validate_time_partition_limit("007d").ok(), Some("007"));
    assert_eq!(validate_time_partition_limit("4294967295d").ok(), Some("4294967295"));
    for bad in ["30", "", "30h", "30D"] {
        assert_eq!(
            custom(validate_time_partition_limit(bad).map(|_| ())),
            Some(("Missing 'd' suffix for duration value".to_string(), 400))
        );
    }
    for bad in ["d", "0d", "-1d", "4294967296d", "1.5d", " 1d", "+d", "1dd", "x1d"] {
        assert_eq!(
            custom(validate_time_partition_limit(bad).map(|_| ())),
            Some(("Could not convert duration to an unsigned number".to_string(), 400)),
            "{}",
            bad
        );
    }
}

#[test]
fn custom_partition_keys_are_split_at_commas() {
    assert_eq!(custom_partition_keys("a,b,c"), vec!["a", "b", "c"]);
    assert_eq!(custom_partition_keys(""), vec![""]);
    assert_eq!(custom_partition_keys("solo"), vec!["solo"]);
    assert_eq!(custom_partition_keys(",x,,"), vec!["", "x", "", ""]);
    assert_eq!(custom_partition_keys("größe,b"), vec!["größe", "b"]);
}

#[test]
fn at_most_three_custom_partition_keys() {
    assert!(validate_custom_partition("a").is_ok());
    assert!(validate_custom_partition("a,b,c").is_ok());
    assert_eq!(
        custom(validate_custom_partition("a,b,c,d")),
        Some(("Maximum 3 custom partition keys are supported".to_string(), 400))
    );
    assert!(validate_custom_partition(",,,").is_err());
}

#[test]
fn time_partition_may_not_be_a_custom_partition_key() {
    assert!(validate_time_with_custom_partition("ts", "a,b").is_ok());
    assert!(validate_time_with_custom_partition("ts", "tsx,xts").is_ok());
    assert_eq!(
        custom(validate_time_with_custom_partition("ts", "a,ts")),
        Some(("time partition ts cannot be set as custom partition".to_string(), 400))
    );
}

#[test]
fn keys_of_a_stream_with_fixed_schema() {
    let fields = vec!["host".to_string(), "ts".to_string(), "level".to_string()];
    let ts = Some("ts".to_string());
    assert!(validate_custom_partition_for_schema("s", "", &fields, &ts).is_ok());
    assert!(validate_custom_partition_for_schema("s", "host,level", &fields, &ts).is_ok());
    assert_eq!(
        custom(validate_custom_partition_for_schema("s", "host,zone,ts", &fields, &ts)),
        Some((
            "custom partition field zone does not exist in the schema for the stream s".to_string(),
            400
        ))
    );
    assert_eq!(
        custom(validate_custom_partition_for_schema("s", "host,ts,zone", &fields, &ts)),
        Some(("time partition ts cannot be set as custom partition".to_string(), 400))
    );
    assert!(validate_custom_partition_for_schema("s", "host,ts", &fields, &None).is_ok());
}

fn header(key: &str, value: &str) -> (String, String) {
    (key.to_string(), value.to_string())
}

#[test]
fn settings_are_read_off_the_headers() {
    let settings = fetch_headers_from_put_stream_request(&vec![
        header("content-type", "application/json"),
        header("x-p-time-partition", "ts"),
        header("x-p-custom-partition", "a,b"),
        header("x-p-time-partition", "created"),
        header("x-p-time-partition-limit", "3d"),
        header("x-p-static-schema-flag", "true"),
        header("x-p-update-stream", "false"),
    ]);
    assert_eq!(settings.time_partition, "created");
    assert_eq!(settings.time_partition_limit, "3d");
    assert_eq!(settings.custom_partition, "a,b");
    assert_eq!(settings.static_schema_flag, "true");
    assert_eq!(settings.update_stream, "false");
    assert_eq!(settings.stream_type, "UserDefined");
    let settings = fetch_headers_from_put_stream_request(&vec![header("x-p-stream-type", "Internal")]);
    assert_eq!(settings.stream_type, "Internal");
    assert_eq!(settings.time_partition, "");
}

fn settings(pairs: &[(&str, &str)]) -> PutStreamHeaders {
    let pairs: Vec<(String, String)> = pairs.iter().map(|(k, v)| header(k, v)).collect();
    fetch_headers_from_put_stream_request(&pairs)
}

fn refusal(outcome: Result<PutStreamAction, StreamError>) -> Option<(String, u16)> {
    match outcome {
        Err(StreamError::Custom { msg, status }) => Some((msg, status)),
        Err(StreamError::CreateStream(CreateStreamError::Custom { msg, status })) => Some((msg, status)),
        _ => None,
    }
}

#[test]
fn creating_a_stream() {
    match create_update_stream(&settings(&[]), "s", false) {
        Ok(PutStreamAction::Create { time_partition_in_days }) => assert_eq!(time_partition_in_days, ""),
        _ => panic!("not created"),
    }
    let asked = settings(&[
        ("x-p-time-partition", "ts"),
        ("x-p-time-partition-limit", "30d"),
        ("x-p-custom-partition", "a,b,c"),
    ]);
    match create_update_stream(&asked, "s", false) {
        Ok(PutStreamAction::Create { time_partition_in_days }) => assert_eq!(time_partition_in_days, "30"),
        _ => panic!("not created"),
    }
    assert_eq!(
        refusal(create_update_stream(&settings(&[]), "s", true)),
        Some((
            "Logstream s already exists, please create a new log stream with unique name".to_string(),
            400
        ))
    );
    assert_eq!(
        refusal(create_update_stream(&settings(&[("x-p-time-partition-limit", "30")]), "s", false)),
        Some(("Missing 'd' suffix for duration value".to_string(), 400))
    );
    assert_eq!(
        refusal(create_update_stream(&settings(&[("x-p-custom-partition", "a,b,c,d")]), "s", false)),
        Some(("Maximum 3 custom partition keys are supported".to_string(), 400))
    );
    assert_eq!(
        refusal(create_update_stream(
            &settings(&[("x-p-custom-partition", "a,ts"), ("x-p-time-partition", "ts")]),
            "s",
            false
        )),
        Some(("time partition ts cannot be set as custom partition".to_string(), 400))
    );
}

#[test]
fn changing_a_stream() {
    let update = ("x-p-update-stream", "true");
    match create_update_stream(&settings(&[update]), "s", false) {
        Err(StreamError::StreamNotFound(name)) => assert_eq!(name, "s"),
        _ => panic!("found"),
    }
    assert_eq!(
        refusal(create_update_stream(&settings(&[update, ("x-p-time-partition", "ts")]), "s", true)),
        Some(("Altering the time partition of an existing stream is restricted.".to_string(), 400))
    );
    assert_eq!(
        refusal(create_update_stream(&settings(&[update, ("x-p-static-schema-flag", "true")]), "s", true)),
        Some(("Altering the schema of an existing stream is restricted.".to_string(), 400))
    );
    match create_update_stream(
        &settings(&[update, ("x-p-time-partition-limit", "7d"), ("x-p-custom-partition", "a,b,c,d")]),
        "s",
        true,
    ) {
        Ok(PutStreamAction::UpdateTimePartitionLimit { days }) => assert_eq!(days, "7"),
        _ => panic!("no change of limit"),
    }
    assert_eq!(
        refusal(create_update_stream(&settings(&[update, ("x-p-time-partition-limit", "0d")]), "s", true)),
        Some(("Could not convert duration to an unsigned number".to_string(), 400))
    );
    match create_update_stream(&settings(&[update, ("x-p-custom-partition", "a,b")]), "s", true) {
        Ok(PutStreamAction::UpdateCustomPartition { custom_partition }) => assert_eq!(custom_partition, "a,b"),
        _ => panic!("no change of keys"),
    }
    match create_update_stream(&settings(&[update]), "s", true) {
        Ok(PutStreamAction::UpdateCustomPartition { custom_partition }) => assert_eq!(custom_partition, ""),
        _ => panic!("no change of keys"),
    }
    assert!(create_update_stream(&settings(&[update, ("x-p-custom-partition", "a,b,c,d")]), "s", true).is_err());
}

#[test]
fn counters_are_added() {
    let a = Stats { events: 1, ingestion: 20, storage: 300 };
    let b = Stats { events: 4, ingestion: 50, storage: 600 };
    assert_eq!(a.total(&b), Some(Stats { events: 5, ingestion: 70, storage: 900 }));
    let full = Stats { events: u64::MAX, ingestion: 0, storage: 0 };
    assert_eq!(full.total(&a), None);
    assert_eq!(full.total(&Stats { events: 0, ingestion: 1, storage: 1 }).map(|s| s.events), Some(u64::MAX));
}

#[test]
fn texts_are_split_at_a_separator() {
    assert_eq!(split_text("a=b=c", '='), vec!["a", "b", "c"]);
    assert_eq!(split_text("a,b", '='), vec!["a,b"]);
    assert_eq!(split_text("=", '='), vec!["", ""]);
    assert_eq!(split_text("", '='), vec![""]);
}

#[test]
fn day_of_a_request_for_statistics() {
    assert_eq!(stats_date("").ok(), Some(None));
    assert_eq!(stats_date("date=2024-01-15").ok(), Some(Some("2024-01-15".to_string())));
    assert_eq!(stats_date("date=").ok(), Some(None));
    assert_eq!(stats_date("date=2024-01-15=x").ok(), Some(Some("2024-01-15".to_string())));
    for foreign in ["day=2024-01-15", "date", "Date=1", "=date", " date=1"] {
        match stats_date(foreign) {
            Err(StreamError::Custom { msg, status }) => {
                assert_eq!(msg, "Invalid query parameter");
                assert_eq!(status, 400);
            }
            _ => panic!("{} was accepted", foreign),
        }
    }
}

fn three_manifests() -> Snapshot {
    let mut snapshot = Snapshot::default();
    for (path, lower) in [("a", 5), ("b", 15), ("c", 25)] {
        snapshot.add_manifest(ManifestItem::new(path.to_string(), lower, lower + 9).unwrap());
    }
    snapshot
}

#[test]
fn cleanup_of_an_unknown_stream_fails_and_changes_nothing() {
    let mut streams = StreamInfo::new();
    streams.streams.insert("known".to_string(), meta(None));
    let mut snapshot = three_manifests();
    match retention_cleanup(&streams, "test", &mut snapshot, &vec!["a".to_string()]) {
        Err(StreamError::StreamNotFound(name)) => assert_eq!(name, "test"),
        _ => panic!("the stream was found"),
    }
    assert_eq!(snapshot.manifest_list.len(), 3);
    assert_eq!(snapshot.manifest_list[0].manifest_path, "a");
}

#[test]
fn cleanup_of_a_known_stream_removes_the_manifests() {
    let mut streams = StreamInfo::new();
    streams.streams.insert("known".to_string(), meta(None));
    let mut snapshot = three_manifests();
    let first = retention_cleanup(&streams, "known", &mut snapshot, &vec!["a".to_string()]);
    assert_eq!(first.ok(), Some(Some(15)));
    assert_eq!(snapshot.manifest_list.len(), 2);
    let gone = vec!["b".to_string(), "c".to_string()];
    assert_eq!(retention_cleanup(&streams, "known", &mut snapshot, &gone).ok(), Some(None));
    assert!(snapshot.manifest_list.is_empty());
}
