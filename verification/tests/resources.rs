use s2_mcp::errors::{Error, PolicyError, RequestError};
use s2_mcp::json::JsonValue;
use s2_mcp::policy::Policy;
use s2_mcp::resources::{
    basin_config_differences, check_desired_resource, diff_request_limits, render_field, require_changes,
    stream_config_differences, summarize_differences, BasinConfigDto, BasinReconfigurationDto,
    DeleteOnEmptyConfigDto, DeleteOnEmptyReconfigurationDto, DesiredResource, DiffItem, EffectiveStreamConfig,
    EncryptionAlgorithmDto, FieldValue, NullableUpdate, ResourceIdentity, RetentionPolicyDto, StorageClassDto,
    StreamConfigDto, StreamReconfigurationDto, TimestampingConfigDto, TimestampingModeDto,
    TimestampingReconfigurationDto, ValueUpdate,
};

fn message<T>(result: Result<T, Error>) -> String {
    match result {
        Err(Error::Request(RequestError::InvalidArguments(m))) => m,
        _ => panic!("expected invalid arguments"),
    }
}

fn stream_config() -> StreamConfigDto {
    StreamConfigDto { storage_class: None, retention_policy: None, timestamping: None, delete_on_empty: None }
}

fn basin_config() -> BasinConfigDto {
    BasinConfigDto {
        default_stream_config: None,
        stream_cipher: None,
        create_stream_on_append: false,
        create_stream_on_read: false,
    }
}

fn stream_update() -> StreamReconfigurationDto {
    StreamReconfigurationDto {
        storage_class: NullableUpdate::Omitted,
        retention_policy: NullableUpdate::Omitted,
        timestamping: NullableUpdate::Omitted,
        delete_on_empty: NullableUpdate::Omitted,
    }
}

fn basin_update() -> BasinReconfigurationDto {
    BasinReconfigurationDto {
        default_stream_config: NullableUpdate::Omitted,
        stream_cipher: NullableUpdate::Omitted,
        create_stream_on_append: ValueUpdate::Omitted,
        create_stream_on_read: ValueUpdate::Omitted,
    }
}

fn item(path: &str) -> DiffItem {
    DiffItem { path: path.to_owned(), actual: JsonValue::Null, desired: JsonValue::Bool(true) }
}

#[test]
fn zero_retention_is_refused() {
    let mut config = stream_config();
    assert!(config.validate().is_ok());
    config.retention_policy = Some(RetentionPolicyDto::Age { seconds: 0 });
    assert_eq!(message(config.validate()), "retention_policy.age seconds must be greater than zero");
    config.retention_policy = Some(RetentionPolicyDto::Age { seconds: 60 });
    assert!(config.validate().is_ok());
    let mut basin = basin_config();
    basin.default_stream_config = Some(StreamConfigDto {
        retention_policy: Some(RetentionPolicyDto::Age { seconds: 0 }),
        ..stream_config()
    });
    assert!(basin.validate().is_err());
}

#[test]
fn updates_must_change_something() {
    assert!(stream_update().is_empty());
    assert!(basin_update().is_empty());
    assert_eq!(message(require_changes(true)), "config must specify at least one field");
    assert!(require_changes(false).is_ok());
    let mut update = stream_update();
    update.storage_class = NullableUpdate::Clear;
    assert!(!update.is_empty());
}

#[test]
fn update_problems_are_reported_in_order() {
    let mut update = stream_update();
    update.timestamping = NullableUpdate::Value(TimestampingReconfigurationDto {
        mode: NullableUpdate::Omitted,
        uncapped: NullableUpdate::Omitted,
    });
    assert_eq!(message(update.validate()), "timestamping must specify at least one field");
    update.retention_policy = NullableUpdate::Value(RetentionPolicyDto::Age { seconds: 0 });
    assert_eq!(message(update.validate()), "retention_policy.age seconds must be greater than zero");

    let mut update = stream_update();
    update.delete_on_empty =
        NullableUpdate::Value(DeleteOnEmptyReconfigurationDto { min_age_seconds: NullableUpdate::Omitted });
    assert_eq!(message(update.validate()), "delete_on_empty must specify min_age_seconds");

    let mut basin = basin_update();
    basin.default_stream_config = NullableUpdate::Value(stream_update());
    assert_eq!(message(basin.validate()), "default_stream_config must specify at least one field");
    basin.default_stream_config = NullableUpdate::Clear;
    assert!(basin.validate().is_ok());
}

#[test]
fn effective_configuration_fills_in_defaults() {
    let effective = EffectiveStreamConfig::from_config(&stream_config());
    assert!(effective.storage_class == StorageClassDto::Express);
    assert!(effective.retention_policy == RetentionPolicyDto::Age { seconds: 604800 });
    assert!(effective.timestamping_mode == TimestampingModeDto::ClientPrefer);
    assert!(!effective.timestamping_uncapped);
    assert_eq!(effective.delete_on_empty_min_age_seconds, 0);
}

#[test]
fn field_values_render_as_their_schema() {
    assert_eq!(render_field(FieldValue::Storage(StorageClassDto::Standard)), JsonValue::String("standard".to_owned()));
    assert_eq!(
        render_field(FieldValue::Retention(RetentionPolicyDto::Age { seconds: 60 })),
        JsonValue::Object(vec![
            ("type".to_owned(), JsonValue::String("age".to_owned())),
            ("seconds".to_owned(), JsonValue::Number("60".to_owned())),
        ])
    );
    assert_eq!(render_field(FieldValue::Cipher(None)), JsonValue::Null);
    assert_eq!(
        render_field(FieldValue::Cipher(Some(EncryptionAlgorithmDto::Aes256Gcm))),
        JsonValue::String("aes256-gcm".to_owned())
    );
    assert_eq!(render_field(FieldValue::Mode(TimestampingModeDto::Arrival)), JsonValue::String("arrival".to_owned()));
}

#[test]
fn stream_differences_compare_effective_values() {
    let actual = stream_config();
    let same_as_default = StreamConfigDto { storage_class: Some(StorageClassDto::Express), ..stream_config() };
    assert!(stream_config_differences(&actual, &same_as_default, "").is_empty());

    let desired = StreamConfigDto {
        storage_class: Some(StorageClassDto::Standard),
        retention_policy: Some(RetentionPolicyDto::Infinite),
        timestamping: Some(TimestampingConfigDto { mode: None, uncapped: Some(true) }),
        delete_on_empty: Some(DeleteOnEmptyConfigDto { min_age_seconds: 30 }),
    };
    let diffs = stream_config_differences(&actual, &desired, "");
    let paths: Vec<&str> = diffs.iter().map(|d| d.path.as_str()).collect();
    assert_eq!(
        paths,
        vec!["storage_class", "retention_policy", "timestamping.uncapped", "delete_on_empty.min_age_seconds"]
    );
    assert_eq!(diffs[0].actual, JsonValue::String("express".to_owned()));
    assert_eq!(diffs[0].desired, JsonValue::String("standard".to_owned()));
    assert_eq!(diffs[3].desired, JsonValue::Number("30".to_owned()));
}

#[test]
fn basin_differences_prefix_the_default_stream_configuration() {
    let actual = basin_config();
    let desired = BasinConfigDto {
        default_stream_config: Some(StreamConfigDto { storage_class: Some(StorageClassDto::Standard), ..stream_config() }),
        stream_cipher: Some(EncryptionAlgorithmDto::Aegis256),
        create_stream_on_append: true,
        create_stream_on_read: false,
    };
    let diffs = basin_config_differences(&actual, &desired);
    let paths: Vec<&str> = diffs.iter().map(|d| d.path.as_str()).collect();
    assert_eq!(paths, vec!["default_stream_config.storage_class", "stream_cipher", "create_stream_on_append"]);
    assert_eq!(diffs[1].actual, JsonValue::Null);
    assert_eq!(diffs[2].desired, JsonValue::Bool(true));
    assert!(basin_config_differences(&actual, &basin_config()).is_empty());
}

#[test]
fn difference_reports_fill_the_item_budget_in_order() {
    let resources = vec![
        (ResourceIdentity::Basin { basin: "a".to_owned() }, vec![item("x"), item("y"), item("z")]),
        (ResourceIdentity::Stream { basin: "a".to_owned(), stream: "s".to_owned() }, vec![]),
        (ResourceIdentity::Basin { basin: "b".to_owned() }, vec![item("w"), item("v")]),
    ];
    let output = summarize_differences(resources, 4);
    assert!(!output.matches);
    assert_eq!(output.difference_count, 5);
    assert_eq!(output.returned_items, 4);
    assert!(output.truncated);
    assert_eq!(output.resources.len(), 3);
    assert_eq!(output.resources[0].differences.len(), 3);
    assert!(!output.resources[0].truncated);
    assert!(output.resources[1].matches);
    assert_eq!(output.resources[2].difference_count, 2);
    assert_eq!(output.resources[2].differences.len(), 1);
    assert_eq!(output.resources[2].differences[0].path, "w");
    assert!(output.resources[2].truncated);

    let empty = summarize_differences(vec![(ResourceIdentity::Basin { basin: "a".to_owned() }, vec![])], 64);
    assert!(empty.matches);
    assert!(!empty.truncated);
    assert_eq!(empty.returned_items, 0);
}

#[test]
fn difference_requests_are_bounded() {
    assert_eq!(diff_request_limits(1, None).ok(), Some(64));
    assert_eq!(diff_request_limits(8, Some(5)).ok(), Some(5));
    assert_eq!(message(diff_request_limits(0, None)), "resources length must be between 1 and 8");
    assert_eq!(message(diff_request_limits(9, None)), "resources length must be between 1 and 8");
    assert_eq!(message(diff_request_limits(2, Some(65))), "max_items must be between 1 and 64");
}

#[test]
fn desired_resources_are_checked_against_the_policy() {
    let scoped = Policy { readonly: true, basin: Some("a".to_owned()), allow_destructive: false };
    let inside = DesiredResource::Stream { basin: "a".to_owned(), stream: "s".to_owned(), desired: stream_config() };
    assert!(check_desired_resource(&scoped, &inside).is_ok());
    let outside = DesiredResource::Basin { basin: "b".to_owned(), desired: basin_config() };
    assert!(matches!(
        check_desired_resource(&scoped, &outside),
        Err(Error::Policy(PolicyError::BasinScope { .. }))
    ));
    let invalid = DesiredResource::Stream {
        basin: "a".to_owned(),
        stream: "s".to_owned(),
        desired: StreamConfigDto { retention_policy: Some(RetentionPolicyDto::Age { seconds: 0 }), ..stream_config() },
    };
    assert_eq!(message(check_desired_resource(&scoped, &invalid)), "retention_policy.age seconds must be greater than zero");
}

#[test]
fn equal_effective_configurations_have_no_differences() {
    let spelled_out = StreamConfigDto {
        storage_class: Some(StorageClassDto::Express),
        retention_policy: Some(RetentionPolicyDto::Age { seconds: 604800 }),
        timestamping: Some(TimestampingConfigDto { mode: Some(TimestampingModeDto::ClientPrefer), uncapped: Some(false) }),
        delete_on_empty: Some(DeleteOnEmptyConfigDto { min_age_seconds: 0 }),
    };
    assert!(stream_config_differences(&stream_config(), &spelled_out, "").is_empty());
    let changed = StreamConfigDto { storage_class: Some(StorageClassDto::Standard), ..stream_config() };
    let differences = stream_config_differences(&stream_config(), &changed, "p.");
    assert_eq!(differences.len(), 1);
    assert_eq!(differences[0].path, "p.storage_class");
}
