use vstd::prelude::*;

use crate::dispatch::{bounded, out_of_bounds};
use crate::errors::{Error, PolicyError, RequestError};
use crate::policy::{policy_allows, Access, Policy, Scope};
use crate::json::JsonValue;
use crate::records::invalid_arguments;
use crate::text::{concat2, copy_str, decimal, decimal_string};

verus! {

pub const DEFAULT_RETENTION_AGE_SECS: u64 = 604800;

pub const MAX_DIFF_RESOURCES: usize = 8;

pub const MAX_DIFF_ITEMS: usize = 64;

#[derive(Clone, Copy, PartialEq, Eq, Structural)]
pub enum StorageClassDto {
    Standard,
    Express,
}

#[derive(Clone, Copy, PartialEq, Eq, Structural)]
pub enum RetentionPolicyDto {
    Age { seconds: u64 },
    Infinite,
}

#[derive(Clone, Copy, PartialEq, Eq, Structural)]
pub enum TimestampingModeDto {
    ClientPrefer,
    ClientRequire,
    Arrival,
}

#[derive(Clone, Copy, PartialEq, Eq, Structural)]
pub struct TimestampingConfigDto {
    pub mode: Option<TimestampingModeDto>,
    pub uncapped: Option<bool>,
}

#[derive(Clone, Copy, PartialEq, Eq, Structural)]
pub struct DeleteOnEmptyConfigDto {
    pub min_age_seconds: u64,
}

#[derive(Clone, Copy, PartialEq, Eq, Structural)]
pub enum EncryptionAlgorithmDto {
    Aegis256,
    Aes256Gcm,
}

/// A stream configuration; unset fields take the service's defaults.
#[derive(Clone, Copy, PartialEq, Eq, Structural)]
pub struct StreamConfigDto {
    pub storage_class: Option<StorageClassDto>,
    pub retention_policy: Option<RetentionPolicyDto>,
    pub timestamping: Option<TimestampingConfigDto>,
    pub delete_on_empty: Option<DeleteOnEmptyConfigDto>,
}

/// A basin configuration.
#[derive(Clone, Copy, PartialEq, Eq, Structural)]
pub struct BasinConfigDto {
    pub default_stream_config: Option<StreamConfigDto>,
    pub stream_cipher: Option<EncryptionAlgorithmDto>,
    pub create_stream_on_append: bool,
    pub create_stream_on_read: bool,
}

pub open spec fn zero_retention() -> Seq<char> {
    "retention_policy.age seconds must be greater than zero"@
}

/// A retention age of zero seconds is refused.
pub open spec fn stream_config_valid(c: StreamConfigDto) -> bool {
    c.retention_policy != Some(RetentionPolicyDto::Age { seconds: 0 })
}

pub open spec fn basin_config_valid(c: BasinConfigDto) -> bool {
    c.default_stream_config matches Some(s) ==> stream_config_valid(s)
}

fn zero_retention_error() -> (e: Error)
    ensures
        invalid_arguments(e, zero_retention()),
{
    Error::Request(RequestError::InvalidArguments(copy_str("retention_policy.age seconds must be greater than zero")))
}

impl StreamConfigDto {
    pub fn validate(&self) -> (r: Result<(), Error>)
        ensures
            r is Ok <==> stream_config_valid(*self),
            r matches Err(e) ==> invalid_arguments(e, zero_retention()),
    {
        if let Some(RetentionPolicyDto::Age { seconds }) = self.retention_policy {
            if seconds == 0 {
                return Err(zero_retention_error());
            }
        }
        Ok(())
    }
}

impl BasinConfigDto {
    pub fn validate(&self) -> (r: Result<(), Error>)
        ensures
            r is Ok <==> basin_config_valid(*self),
            r matches Err(e) ==> invalid_arguments(e, zero_retention()),
    {
        if let Some(config) = &self.default_stream_config {
            config.validate()?;
        }
        Ok(())
    }
}

/// A field of a partial update that may be left out, cleared, or set.
#[derive(Clone, Copy)]
pub enum NullableUpdate<T> {
    Omitted,
    Clear,
    Value(T),
}

/// A field of a partial update that may be left out or set.
#[derive(Clone, Copy)]
pub enum ValueUpdate<T> {
    Omitted,
    Value(T),
}

impl<T> NullableUpdate<T> {
    pub fn is_omitted(&self) -> (b: bool)
        ensures
            b == (self is Omitted),
    {
        match self {
            NullableUpdate::Omitted => true,
            _ => false,
        }
    }
}

impl<T> ValueUpdate<T> {
    pub fn is_omitted(&self) -> (b: bool)
        ensures
            b == (self is Omitted),
    {
        match self {
            ValueUpdate::Omitted => true,
            _ => false,
        }
    }
}

#[derive(Clone, Copy)]
pub struct TimestampingReconfigurationDto {
    pub mode: NullableUpdate<TimestampingModeDto>,
    pub uncapped: NullableUpdate<bool>,
}

#[derive(Clone, Copy)]
pub struct DeleteOnEmptyReconfigurationDto {
    pub min_age_seconds: NullableUpdate<u64>,
}

#[derive(Clone, Copy)]
pub struct StreamReconfigurationDto {
    pub storage_class: NullableUpdate<StorageClassDto>,
    pub retention_policy: NullableUpdate<RetentionPolicyDto>,
    pub timestamping: NullableUpdate<TimestampingReconfigurationDto>,
    pub delete_on_empty: NullableUpdate<DeleteOnEmptyReconfigurationDto>,
}

#[derive(Clone, Copy)]
pub struct BasinReconfigurationDto {
    pub default_stream_config: NullableUpdate<StreamReconfigurationDto>,
    pub stream_cipher: NullableUpdate<EncryptionAlgorithmDto>,
    pub create_stream_on_append: ValueUpdate<bool>,
    pub create_stream_on_read: ValueUpdate<bool>,
}

pub open spec fn timestamping_update_empty(t: TimestampingReconfigurationDto) -> bool {
    t.mode is Omitted && t.uncapped is Omitted
}

pub open spec fn stream_update_empty(s: StreamReconfigurationDto) -> bool {
    s.storage_class is Omitted && s.retention_policy is Omitted && s.timestamping is Omitted && s.delete_on_empty is Omitted
}

pub open spec fn basin_update_empty(b: BasinReconfigurationDto) -> bool {
    b.default_stream_config is Omitted && b.stream_cipher is Omitted && b.create_stream_on_append is Omitted
        && b.create_stream_on_read is Omitted
}

/// What is wrong with a stream update, checked field by field in order: a
/// zero retention age, an empty timestamping update, an empty delete-on-empty
/// update.
pub open spec fn stream_update_problem(s: StreamReconfigurationDto) -> Option<Seq<char>> {
    if s.retention_policy == NullableUpdate::Value(RetentionPolicyDto::Age { seconds: 0 }) {
        Some(zero_retention())
    } else if s.timestamping matches NullableUpdate::Value(t) && timestamping_update_empty(t) {
        Some("timestamping must specify at least one field"@)
    } else if s.delete_on_empty matches NullableUpdate::Value(d) && d.min_age_seconds is Omitted {
        Some("delete_on_empty must specify min_age_seconds"@)
    } else {
        None
    }
}

/// What is wrong with a basin update: an empty default stream update, or a
/// problem of the default stream update.
pub open spec fn basin_update_problem(b: BasinReconfigurationDto) -> Option<Seq<char>> {
    match b.default_stream_config {
        NullableUpdate::Value(s) => if stream_update_empty(s) {
            Some("default_stream_config must specify at least one field"@)
        } else {
            stream_update_problem(s)
        },
        _ => None,
    }
}

impl TimestampingReconfigurationDto {
    pub fn is_empty(&self) -> (b: bool)
        ensures
            b == timestamping_update_empty(*self),
    {
        self.mode.is_omitted() && self.uncapped.is_omitted()
    }
}

impl StreamReconfigurationDto {
    pub fn is_empty(&self) -> (b: bool)
        ensures
            b == stream_update_empty(*self),
    {
        self.storage_class.is_omitted() && self.retention_policy.is_omitted() && self.timestamping.is_omitted()
            && self.delete_on_empty.is_omitted()
    }

    /// Checks the update before it is sent to S2.
    pub fn validate(&self) -> (r: Result<(), Error>)
        ensures
            r is Ok <==> stream_update_problem(*self) is None,
            r matches Err(e) ==> invalid_arguments(e, stream_update_problem(*self)->0),
    {
        if let NullableUpdate::Value(RetentionPolicyDto::Age { seconds }) = self.retention_policy {
            if seconds == 0 {
                return Err(zero_retention_error());
            }
        }
        if let NullableUpdate::Value(t) = self.timestamping {
            if t.is_empty() {
                return Err(Error::Request(RequestError::InvalidArguments(copy_str("timestamping must specify at least one field"))));
            }
        }
        if let NullableUpdate::Value(d) = self.delete_on_empty {
            if d.min_age_seconds.is_omitted() {
                return Err(Error::Request(RequestError::InvalidArguments(copy_str("delete_on_empty must specify min_age_seconds"))));
            }
        }
        Ok(())
    }
}

impl BasinReconfigurationDto {
    pub fn is_empty(&self) -> (b: bool)
        ensures
            b == basin_update_empty(*self),
    {
        self.default_stream_config.is_omitted() && self.stream_cipher.is_omitted()
            && self.create_stream_on_append.is_omitted() && self.create_stream_on_read.is_omitted()
    }

    /// Checks the update before it is sent to S2.
    pub fn validate(&self) -> (r: Result<(), Error>)
        ensures
            r is Ok <==> basin_update_problem(*self) is None,
            r matches Err(e) ==> invalid_arguments(e, basin_update_problem(*self)->0),
    {
        if let NullableUpdate::Value(s) = self.default_stream_config {
            if s.is_empty() {
                return Err(Error::Request(RequestError::InvalidArguments(copy_str("default_stream_config must specify at least one field"))));
            }
            s.validate()?;
        }
        Ok(())
    }
}

/// A reconfiguration must change something.
pub fn require_changes(empty: bool) -> (r: Result<(), Error>)
    ensures
        r is Ok <==> !empty,
        r matches Err(e) ==> invalid_arguments(e, "config must specify at least one field"@),
{
    if empty {
        return Err(Error::Request(RequestError::InvalidArguments(copy_str("config must specify at least one field"))));
    }
    Ok(())
}

/// A stream configuration with every default filled in.
#[derive(Clone, Copy, PartialEq, Eq, Structural)]
pub struct EffectiveStreamConfig {
    pub storage_class: StorageClassDto,
    pub retention_policy: RetentionPolicyDto,
    pub timestamping_mode: TimestampingModeDto,
    pub timestamping_uncapped: bool,
    pub delete_on_empty_min_age_seconds: u64,
}

/// The defaults: express storage, seven days of retention, client-preferred
/// timestamps, capped, no deletion when empty.
pub open spec fn effective(c: StreamConfigDto) -> EffectiveStreamConfig {
    EffectiveStreamConfig {
        storage_class: match c.storage_class {
            Some(s) => s,
            None => StorageClassDto::Express,
        },
        retention_policy: match c.retention_policy {
            Some(r) => r,
            None => RetentionPolicyDto::Age { seconds: DEFAULT_RETENTION_AGE_SECS },
        },
        timestamping_mode: match c.timestamping {
            Some(TimestampingConfigDto { mode: Some(m), .. }) => m,
            _ => TimestampingModeDto::ClientPrefer,
        },
        timestamping_uncapped: match c.timestamping {
            Some(TimestampingConfigDto { uncapped: Some(u), .. }) => u,
            _ => false,
        },
        delete_on_empty_min_age_seconds: match c.delete_on_empty {
            Some(d) => d.min_age_seconds,
            None => 0,
        },
    }
}

impl EffectiveStreamConfig {
    pub fn from_config(c: &StreamConfigDto) -> (e: Self)
        ensures
            e == effective(*c),
    {
        EffectiveStreamConfig {
            storage_class: match c.storage_class {
                Some(s) => s,
                None => StorageClassDto::Express,
            },
            retention_policy: match c.retention_policy {
                Some(r) => r,
                None => RetentionPolicyDto::Age { seconds: DEFAULT_RETENTION_AGE_SECS },
            },
            timestamping_mode: match c.timestamping {
                Some(TimestampingConfigDto { mode: Some(m), .. }) => m,
                _ => TimestampingModeDto::ClientPrefer,
            },
            timestamping_uncapped: match c.timestamping {
                Some(TimestampingConfigDto { uncapped: Some(u), .. }) => u,
                _ => false,
            },
            delete_on_empty_min_age_seconds: match c.delete_on_empty {
                Some(d) => d.min_age_seconds,
                None => 0,
            },
        }
    }
}

/// A configuration field's value, as a difference reports it.
#[derive(Clone, Copy, PartialEq, Eq, Structural)]
pub enum FieldValue {
    Storage(StorageClassDto),
    Retention(RetentionPolicyDto),
    Mode(TimestampingModeDto),
    Flag(bool),
    Seconds(u64),
    Cipher(Option<EncryptionAlgorithmDto>),
}

pub open spec fn storage_text(s: StorageClassDto) -> Seq<char> {
    match s {
        StorageClassDto::Standard => "standard"@,
        StorageClassDto::Express => "express"@,
    }
}

pub open spec fn mode_text(m: TimestampingModeDto) -> Seq<char> {
    match m {
        TimestampingModeDto::ClientPrefer => "client_prefer"@,
        TimestampingModeDto::ClientRequire => "client_require"@,
        TimestampingModeDto::Arrival => "arrival"@,
    }
}

pub open spec fn cipher_text(a: EncryptionAlgorithmDto) -> Seq<char> {
    match a {
        EncryptionAlgorithmDto::Aegis256 => "aegis256"@,
        EncryptionAlgorithmDto::Aes256Gcm => "aes256-gcm"@,
    }
}

/// `v` is the JSON of the field value `f`, as its schema writes it.
pub open spec fn renders(v: JsonValue, f: FieldValue) -> bool {
    match f {
        FieldValue::Storage(s) => v matches JsonValue::String(t) && t@ == storage_text(s),
        FieldValue::Retention(RetentionPolicyDto::Age { seconds }) => v matches JsonValue::Object(ms) && ms@.len() == 2
            && ms@[0].0@ == "type"@ && (ms@[0].1 matches JsonValue::String(t) && t@ == "age"@) && ms@[1].0@ == "seconds"@
            && (ms@[1].1 matches JsonValue::Number(n) && n@ == decimal(seconds as nat)),
        FieldValue::Retention(RetentionPolicyDto::Infinite) => v matches JsonValue::Object(ms) && ms@.len() == 1
            && ms@[0].0@ == "type"@ && (ms@[0].1 matches JsonValue::String(t) && t@ == "infinite"@),
        FieldValue::Mode(m) => v matches JsonValue::String(t) && t@ == mode_text(m),
        FieldValue::Flag(b) => v == JsonValue::Bool(b),
        FieldValue::Seconds(n) => v matches JsonValue::Number(t) && t@ == decimal(n as nat),
        FieldValue::Cipher(None) => v is Null,
        FieldValue::Cipher(Some(a)) => v matches JsonValue::String(t) && t@ == cipher_text(a),
    }
}

/// The JSON of a field value.
pub fn render_field(f: FieldValue) -> (v: JsonValue)
    ensures
        renders(v, f),
{
    match f {
        FieldValue::Storage(s) => JsonValue::String(
            copy_str(
                match s {
                    StorageClassDto::Standard => "standard",
                    StorageClassDto::Express => "express",
                },
            ),
        ),
        FieldValue::Retention(RetentionPolicyDto::Age { seconds }) => {
            let mut ms: Vec<(String, JsonValue)> = Vec::new();
            ms.push((copy_str("type"), JsonValue::String(copy_str("age"))));
            ms.push((copy_str("seconds"), JsonValue::Number(decimal_string(seconds))));
            JsonValue::Object(ms)
        },
        FieldValue::Retention(RetentionPolicyDto::Infinite) => {
            let mut ms: Vec<(String, JsonValue)> = Vec::new();
            ms.push((copy_str("type"), JsonValue::String(copy_str("infinite"))));
            JsonValue::Object(ms)
        },
        FieldValue::Mode(m) => JsonValue::String(
            copy_str(
                match m {
                    TimestampingModeDto::ClientPrefer => "client_prefer",
                    TimestampingModeDto::ClientRequire => "client_require",
                    TimestampingModeDto::Arrival => "arrival",
                },
            ),
        ),
        FieldValue::Flag(b) => JsonValue::Bool(b),
        FieldValue::Seconds(n) => JsonValue::Number(decimal_string(n)),
        FieldValue::Cipher(None) => JsonValue::Null,
        FieldValue::Cipher(Some(a)) => JsonValue::String(
            copy_str(
                match a {
                    EncryptionAlgorithmDto::Aegis256 => "aegis256",
                    EncryptionAlgorithmDto::Aes256Gcm => "aes256-gcm",
                },
            ),
        ),
    }
}

/// One difference: where, what S2 has, what was asked for.
pub struct DiffItem {
    pub path: String,
    pub actual: JsonValue,
    pub desired: JsonValue,
}

pub type Difference = (Seq<char>, FieldValue, FieldValue);

/// `diffs` with one more difference when the values differ.
pub open spec fn with_difference(diffs: Seq<Difference>, path: Seq<char>, actual: FieldValue, desired: FieldValue) -> Seq<Difference> {
    if actual != desired {
        diffs.push((path, actual, desired))
    } else {
        diffs
    }
}

/// The differences between two effective stream configurations, field by
/// field, each path under `prefix`.
pub open spec fn stream_differences(a: EffectiveStreamConfig, d: EffectiveStreamConfig, prefix: Seq<char>) -> Seq<Difference> {
    let s0 = with_difference(Seq::empty(), prefix + "storage_class"@, FieldValue::Storage(a.storage_class), FieldValue::Storage(d.storage_class));
    let s1 = with_difference(s0, prefix + "retention_policy"@, FieldValue::Retention(a.retention_policy), FieldValue::Retention(d.retention_policy));
    let s2 = with_difference(s1, prefix + "timestamping.mode"@, FieldValue::Mode(a.timestamping_mode), FieldValue::Mode(d.timestamping_mode));
    let s3 = with_difference(s2, prefix + "timestamping.uncapped"@, FieldValue::Flag(a.timestamping_uncapped), FieldValue::Flag(d.timestamping_uncapped));
    with_difference(s3, prefix + "delete_on_empty.min_age_seconds"@, FieldValue::Seconds(a.delete_on_empty_min_age_seconds), FieldValue::Seconds(d.delete_on_empty_min_age_seconds))
}

/// Stream configurations are compared by their effective settings: equal
/// effective settings give equal differences, none exactly when the
/// effective settings agree, and otherwise at most one per field, each under
/// the prefix and between distinct values.
pub proof fn lemma_stream_differences_by_effect(
    a1: StreamConfigDto,
    a2: StreamConfigDto,
    d1: StreamConfigDto,
    d2: StreamConfigDto,
    prefix: Seq<char>,
)
    requires
        effective(a1) == effective(a2),
        effective(d1) == effective(d2),
    ensures
        stream_differences(effective(a1), effective(d1), prefix) == stream_differences(effective(a2), effective(d2), prefix),
        stream_differences(effective(a1), effective(d1), prefix).len() == 0 <==> effective(a1) == effective(d1),
        stream_differences(effective(a1), effective(d1), prefix).len() <= 5,
        forall|i: int| 0 <= i < stream_differences(effective(a1), effective(d1), prefix).len() ==> {
            let d = #[trigger] stream_differences(effective(a1), effective(d1), prefix)[i];
            &&& d.0.subrange(0, prefix.len() as int) == prefix
            &&& d.1 != d.2
        },
{
    let ea = effective(a1);
    let ed = effective(d1);
    let s = stream_differences(ea, ed, prefix);
    assert forall|i: int| 0 <= i < s.len() implies {
        let d = #[trigger] s[i];
        &&& d.0.subrange(0, prefix.len() as int) == prefix
        &&& d.1 != d.2
    } by {
        let paths = seq![
            "storage_class"@,
            "retention_policy"@,
            "timestamping.mode"@,
            "timestamping.uncapped"@,
            "delete_on_empty.min_age_seconds"@,
        ];
        assert forall|k: int| 0 <= k < 5 implies (prefix + #[trigger] paths[k]).subrange(0, prefix.len() as int) == prefix by {
            assert((prefix + paths[k]).subrange(0, prefix.len() as int) =~= prefix);
        }
        assert(paths[0] == "storage_class"@);
        assert(paths[1] == "retention_policy"@);
        assert(paths[2] == "timestamping.mode"@);
        assert(paths[3] == "timestamping.uncapped"@);
        assert(paths[4] == "delete_on_empty.min_age_seconds"@);
    }
}

pub open spec fn default_stream_config(c: BasinConfigDto) -> StreamConfigDto {
    match c.default_stream_config {
        Some(s) => s,
        None => StreamConfigDto { storage_class: None, retention_policy: None, timestamping: None, delete_on_empty: None },
    }
}

/// The differences between two basin configurations: the default stream
/// configurations' first, then the cipher and the auto-creation flags.
pub open spec fn basin_differences(a: BasinConfigDto, d: BasinConfigDto) -> Seq<Difference> {
    let s = stream_differences(effective(default_stream_config(a)), effective(default_stream_config(d)), "default_stream_config."@);
    let s1 = with_difference(s, "stream_cipher"@, FieldValue::Cipher(a.stream_cipher), FieldValue::Cipher(d.stream_cipher));
    let s2 = with_difference(s1, "create_stream_on_append"@, FieldValue::Flag(a.create_stream_on_append), FieldValue::Flag(d.create_stream_on_append));
    with_difference(s2, "create_stream_on_read"@, FieldValue::Flag(a.create_stream_on_read), FieldValue::Flag(d.create_stream_on_read))
}

/// The reported items are the differences, in order.
pub open spec fn reports(items: Seq<DiffItem>, diffs: Seq<Difference>) -> bool {
    &&& items.len() == diffs.len()
    &&& forall|i: int| 0 <= i < items.len() ==> {
        &&& (#[trigger] items[i]).path@ == diffs[i].0
        &&& renders(items[i].actual, diffs[i].1)
        &&& renders(items[i].desired, diffs[i].2)
    }
}

fn push_difference(diffs: &mut Vec<DiffItem>, path: String, actual: FieldValue, desired: FieldValue)
    ensures
        forall|d: Seq<Difference>| reports(old(diffs)@, d) ==> reports(final(diffs)@, with_difference(d, path@, actual, desired)),
{
    if actual != desired {
        let ghost before = diffs@;
        diffs.push(DiffItem { path, actual: render_field(actual), desired: render_field(desired) });
        assert forall|d: Seq<Difference>| reports(before, d) implies reports(diffs@, with_difference(d, path@, actual, desired)) by {
            let w = with_difference(d, path@, actual, desired);
            assert forall|i: int| 0 <= i < diffs@.len() implies {
                &&& (#[trigger] diffs@[i]).path@ == w[i].0
                &&& renders(diffs@[i].actual, w[i].1)
                &&& renders(diffs@[i].desired, w[i].2)
            } by {
                if i < before.len() {
                    assert(diffs@[i] == before[i]);
                }
            }
        }
    }
}

/// The differences between two stream configurations.
pub fn stream_config_differences(actual: &StreamConfigDto, desired: &StreamConfigDto, path_prefix: &str) -> (r: Vec<DiffItem>)
    ensures
        reports(r@, stream_differences(effective(*actual), effective(*desired), path_prefix@)),
{
    let a = EffectiveStreamConfig::from_config(actual);
    let d = EffectiveStreamConfig::from_config(desired);
    let mut diffs: Vec<DiffItem> = Vec::new();
    let ghost empty = Seq::<Difference>::empty();
    assert(reports(diffs@, empty));
    push_difference(&mut diffs, concat2(path_prefix, "storage_class"), FieldValue::Storage(a.storage_class), FieldValue::Storage(d.storage_class));
    push_difference(&mut diffs, concat2(path_prefix, "retention_policy"), FieldValue::Retention(a.retention_policy), FieldValue::Retention(d.retention_policy));
    push_difference(&mut diffs, concat2(path_prefix, "timestamping.mode"), FieldValue::Mode(a.timestamping_mode), FieldValue::Mode(d.timestamping_mode));
    push_difference(&mut diffs, concat2(path_prefix, "timestamping.uncapped"), FieldValue::Flag(a.timestamping_uncapped), FieldValue::Flag(d.timestamping_uncapped));
    push_difference(&mut diffs, concat2(path_prefix, "delete_on_empty.min_age_seconds"), FieldValue::Seconds(a.delete_on_empty_min_age_seconds), FieldValue::Seconds(d.delete_on_empty_min_age_seconds));
    diffs
}

/// The differences between two basin configurations.
pub fn basin_config_differences(actual: &BasinConfigDto, desired: &BasinConfigDto) -> (r: Vec<DiffItem>)
    ensures
        reports(r@, basin_differences(*actual, *desired)),
{
    let default_stream = StreamConfigDto { storage_class: None, retention_policy: None, timestamping: None, delete_on_empty: None };
    let a = match &actual.default_stream_config {
        Some(s) => *s,
        None => default_stream,
    };
    let d = match &desired.default_stream_config {
        Some(s) => *s,
        None => default_stream,
    };
    let mut diffs = stream_config_differences(&a, &d, "default_stream_config.");
    push_difference(&mut diffs, copy_str("stream_cipher"), FieldValue::Cipher(actual.stream_cipher), FieldValue::Cipher(desired.stream_cipher));
    push_difference(&mut diffs, copy_str("create_stream_on_append"), FieldValue::Flag(actual.create_stream_on_append), FieldValue::Flag(desired.create_stream_on_append));
    push_difference(&mut diffs, copy_str("create_stream_on_read"), FieldValue::Flag(actual.create_stream_on_read), FieldValue::Flag(desired.create_stream_on_read));
    diffs
}

/// A resource and the configuration it should have.
pub enum DesiredResource {
    Basin { basin: String, desired: BasinConfigDto },
    Stream { basin: String, stream: String, desired: StreamConfigDto },
}

/// Which resource a difference report is about.
pub enum ResourceIdentity {
    Basin { basin: String },
    Stream { basin: String, stream: String },
}

/// Checks a desired resource before its current state is fetched: the
/// policy must allow reading it, its basin must be in scope, and the desired
/// configuration must be valid.
pub fn check_desired_resource(policy: &Policy, resource: &DesiredResource) -> (r: Result<(), Error>)
    ensures
        ({
            let (scope, basin) = match *resource {
                DesiredResource::Basin { basin, .. } => (Scope::Basin, basin),
                DesiredResource::Stream { basin, .. } => (Scope::Stream, basin),
            };
            let valid = match *resource {
                DesiredResource::Basin { desired, .. } => basin_config_valid(desired),
                DesiredResource::Stream { desired, .. } => stream_config_valid(desired),
            };
            &&& !policy_allows(*policy, Access::Read, scope) ==> (r matches Err(e) && e matches Error::Policy(PolicyError::Forbidden))
            &&& policy_allows(*policy, Access::Read, scope) && (policy.basin matches Some(b) && b@ != basin@) ==> (r matches Err(e) && e matches Error::Policy(PolicyError::BasinScope { .. }))
            &&& policy_allows(*policy, Access::Read, scope) && !(policy.basin matches Some(b) && b@ != basin@) && !valid ==> (r matches Err(e) && invalid_arguments(e, zero_retention()))
            &&& policy_allows(*policy, Access::Read, scope) && !(policy.basin matches Some(b) && b@ != basin@) && valid ==> r is Ok
        }),
{
    match resource {
        DesiredResource::Basin { basin, desired } => {
            policy.enforce_operation(Access::Read, Scope::Basin)?;
            policy.enforce_basin(basin.as_str())?;
            desired.validate()
        },
        DesiredResource::Stream { basin, desired, .. } => {
            policy.enforce_operation(Access::Read, Scope::Stream)?;
            policy.enforce_basin(basin.as_str())?;
            desired.validate()
        },
    }
}

/// The differences of one resource, as reported.
pub struct ResourceDiff {
    pub resource: ResourceIdentity,
    pub matches: bool,
    pub difference_count: usize,
    pub differences: Vec<DiffItem>,
    pub truncated: bool,
}

/// The report of a comparison of desired and current configurations.
pub struct DiffResourcesOutput {
    pub matches: bool,
    pub difference_count: usize,
    pub returned_items: usize,
    pub truncated: bool,
    pub resources: Vec<ResourceDiff>,
}

/// How many differences each resource reports: as many as fit in the room
/// left by the resources before it.
pub open spec fn returned_counts(counts: Seq<int>, room: int) -> Seq<int>
    decreases counts.len(),
{
    if counts.len() == 0 {
        Seq::empty()
    } else {
        let k = if counts[0] <= room {
            counts[0]
        } else {
            room
        };
        seq![k] + returned_counts(counts.drop_first(), room - k)
    }
}

pub open spec fn sum(s: Seq<int>) -> int
    decreases s.len(),
{
    if s.len() == 0 {
        0
    } else {
        sum(s.drop_last()) + s.last()
    }
}

pub open spec fn counts_of(resources: Seq<(ResourceIdentity, Vec<DiffItem>)>) -> Seq<int> {
    resources.map_values(|r: (ResourceIdentity, Vec<DiffItem>)| r.1@.len() as int)
}

/// Shared out from a common room, the returned counts never exceed the room or the counts asked for.
pub proof fn lemma_returned_counts_bounded(counts: Seq<int>, room: int)
    requires
        room >= 0,
        forall|i: int| 0 <= i < counts.len() ==> counts[i] >= 0,
    ensures
        returned_counts(counts, room).len() == counts.len(),
        sum(returned_counts(counts, room)) <= room,
        forall|i: int| 0 <= i < counts.len() ==> 0 <= #[trigger] returned_counts(counts, room)[i] <= counts[i],
    decreases counts.len(),
{
    if counts.len() > 0 {
        let k = if counts[0] <= room {
            counts[0]
        } else {
            room
        };
        let rest = returned_counts(counts.drop_first(), room - k);
        lemma_returned_counts_bounded(counts.drop_first(), room - k);
        let all = returned_counts(counts, room);
        assert(all =~= seq![k] + rest);
        lemma_sum_cons(k, rest);
        assert forall|i: int| 0 <= i < counts.len() implies 0 <= #[trigger] all[i] <= counts[i] by {
            if i > 0 {
                assert(all[i] == rest[i - 1]);
                assert(counts.drop_first()[i - 1] == counts[i]);
            }
        }
    }
}

proof fn lemma_sum_cons(k: int, rest: Seq<int>)
    ensures
        sum(seq![k] + rest) == k + sum(rest),
    decreases rest.len(),
{
    if rest.len() == 0 {
        assert(seq![k] + rest =~= seq![k]);
        assert(seq![k].drop_last() =~= Seq::<int>::empty());
        assert(sum(seq![k]) == sum(seq![k].drop_last()) + k);
    } else {
        lemma_sum_cons(k, rest.drop_last());
        assert((seq![k] + rest).drop_last() =~= seq![k] + rest.drop_last());
        assert((seq![k] + rest).last() == rest.last());
    }
}

/// Summarizes the differences of the resources within a budget of reported
/// items: every resource reports its count and whether it matches; the
/// items themselves fill the budget in order.
pub fn summarize_differences(resources: Vec<(ResourceIdentity, Vec<DiffItem>)>, item_limit: usize) -> (r: DiffResourcesOutput)
    requires
        sum(counts_of(resources@)) <= usize::MAX,
    ensures
        ({
            let counts = counts_of(resources@);
            let returned = returned_counts(counts, item_limit as int);
            &&& r.difference_count == sum(counts)
            &&& r.matches == (sum(counts) == 0)
            &&& r.returned_items == sum(returned)
            &&& r.returned_items <= item_limit
            &&& r.truncated == (sum(returned) < sum(counts))
            &&& r.resources@.len() == resources@.len()
            &&& forall|i: int| 0 <= i < resources@.len() ==> {
                &&& (#[trigger] r.resources@[i]).difference_count == counts[i]
                &&& r.resources@[i].matches == (counts[i] == 0)
                &&& r.resources@[i].differences@ == resources@[i].1@.subrange(0, returned[i])
                &&& r.resources@[i].truncated == (returned[i] < counts[i])
                &&& r.resources@[i].resource == resources@[i].0
            }
        }),
{
    let ghost initial = resources@;
    let ghost counts = counts_of(initial);
    let ghost returned = returned_counts(counts, item_limit as int);
    proof {
        assert forall|i: int| 0 <= i < counts.len() implies counts[i] >= 0 by {}
        lemma_returned_counts_bounded(counts, item_limit as int);
    }
    let mut rest = resources;
    let mut reversed: Vec<(ResourceIdentity, Vec<DiffItem>)> = Vec::new();
    while rest.len() > 0
        invariant
            rest@ + reversed@.reverse() == initial,
        decreases rest@.len(),
    {
        let ghost before = rest@;
        let item = rest.pop().unwrap();
        assert(rest@ + seq![item] =~= before);
        reversed.push(item);
        assert(reversed@.reverse() =~= seq![item] + reversed@.drop_last().reverse());
        assert(rest@ + reversed@.reverse() =~= before + reversed@.drop_last().reverse());
    }
    assert(reversed@.reverse() =~= initial);
    let total_len = reversed.len();
    let mut remaining: usize = item_limit;
    let mut difference_count: usize = 0;
    let mut out: Vec<ResourceDiff> = Vec::new();
    let mut k: usize = 0;
    assert(counts.subrange(0, 0) =~= Seq::<int>::empty());
    assert(returned.subrange(0, 0) =~= Seq::<int>::empty());
    assert(returned_counts(counts.subrange(0, counts.len() as int), item_limit as int) == returned) by {
        assert(counts.subrange(0, counts.len() as int) =~= counts);
    }
    while reversed.len() > 0
        invariant
            reversed@.reverse() == initial.subrange(k as int, initial.len() as int),
            k + reversed@.len() == initial.len(),
            initial.len() == total_len,
            counts == counts_of(initial),
            returned == returned_counts(counts, item_limit as int),
            returned.len() == counts.len(),
            sum(counts) <= usize::MAX,
            forall|i: int| 0 <= i < counts.len() ==> 0 <= #[trigger] returned[i] <= counts[i],
            returned_counts(counts.subrange(k as int, counts.len() as int), remaining as int) == returned.subrange(k as int, returned.len() as int),
            difference_count == sum(counts.subrange(0, k as int)),
            remaining == item_limit - sum(returned.subrange(0, k as int)),
            remaining <= item_limit,
            out@.len() == k,
            forall|i: int| 0 <= i < k ==> {
                &&& (#[trigger] out@[i]).difference_count == counts[i]
                &&& out@[i].matches == (counts[i] == 0)
                &&& out@[i].differences@ == initial[i].1@.subrange(0, returned[i])
                &&& out@[i].truncated == (returned[i] < counts[i])
                &&& out@[i].resource == initial[i].0
            },
        decreases reversed@.len(),
    {
        let ghost before = reversed@;
        let (identity, differences) = reversed.pop().unwrap();
        assert(before.reverse()[0] == (identity, differences));
        assert(initial[k as int] == (identity, differences));
        assert(reversed@.reverse() =~= before.reverse().drop_first());
        let count = differences.len();
        assert(counts[k as int] == count);
        let ghost crest = counts.subrange(k as int, counts.len() as int);
        assert(crest[0] == counts[k as int]);
        assert(crest.drop_first() =~= counts.subrange(k + 1, counts.len() as int));
        let returned_count = if count <= remaining { count } else { remaining };
        assert(returned[k as int] == returned_count) by {
            assert(returned_counts(crest, remaining as int)[0] == returned_count);
            assert(returned.subrange(k as int, returned.len() as int)[0] == returned[k as int]);
        }
        assert(returned_counts(counts.subrange(k + 1, counts.len() as int), remaining - returned_count) == returned.subrange(k + 1, returned.len() as int)) by {
            assert(returned_counts(crest, remaining as int) =~= seq![returned_count as int] + returned_counts(crest.drop_first(), remaining - returned_count));
            assert(returned.subrange(k + 1, returned.len() as int) =~= returned.subrange(k as int, returned.len() as int).drop_first());
        }
        proof {
            assert(counts.subrange(0, k + 1).drop_last() =~= counts.subrange(0, k as int));
            assert(returned.subrange(0, k + 1).drop_last() =~= returned.subrange(0, k as int));
            lemma_sum_prefix_bound(counts, k as int + 1);
        }
        remaining = remaining - returned_count;
        difference_count = difference_count + count;
        let mut kept = differences;
        kept.truncate(returned_count);
        out.push(ResourceDiff {
            resource: identity,
            matches: count == 0,
            difference_count: count,
            differences: kept,
            truncated: returned_count < count,
        });
        k = k + 1;
        assert(initial.subrange(k as int, initial.len() as int) =~= before.reverse().drop_first());
    }
    assert(counts.subrange(0, k as int) =~= counts);
    assert(returned.subrange(0, k as int) =~= returned);
    let returned_items = item_limit - remaining;
    DiffResourcesOutput {
        matches: difference_count == 0,
        difference_count,
        returned_items,
        truncated: returned_items < difference_count,
        resources: out,
    }
}

proof fn lemma_sum_prefix_bound(s: Seq<int>, k: int)
    requires
        0 <= k <= s.len(),
        forall|i: int| 0 <= i < s.len() ==> s[i] >= 0,
    ensures
        sum(s.subrange(0, k)) <= sum(s),
    decreases s.len() - k,
{
    if k < s.len() {
        lemma_sum_prefix_bound(s, k + 1);
        assert(s.subrange(0, k + 1).drop_last() =~= s.subrange(0, k));
    } else {
        assert(s.subrange(0, k) =~= s);
    }
}

/// Checks the size of a difference request: 1 to 8 resources, 1 to 64 items
/// (64 by default).
pub fn diff_request_limits(resource_count: usize, max_items: Option<usize>) -> (r: Result<usize, Error>)
    ensures
        !(1 <= resource_count <= MAX_DIFF_RESOURCES) ==> (r matches Err(e) && invalid_arguments(e, out_of_bounds("resources length"@, MAX_DIFF_RESOURCES))),
        (1 <= resource_count <= MAX_DIFF_RESOURCES) ==> ({
            let m = match max_items { Some(v) => v, None => MAX_DIFF_ITEMS };
            &&& !(1 <= m <= MAX_DIFF_ITEMS) ==> (r matches Err(e) && invalid_arguments(e, out_of_bounds("max_items"@, MAX_DIFF_ITEMS)))
            &&& (1 <= m <= MAX_DIFF_ITEMS) ==> r == Ok::<usize, Error>(m)
        }),
{
    bounded(resource_count, MAX_DIFF_RESOURCES, "resources length")?;
    bounded(
        match max_items {
            Some(v) => v,
            None => MAX_DIFF_ITEMS,
        },
        MAX_DIFF_ITEMS,
        "max_items",
    )
}

} // verus!
