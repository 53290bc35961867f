//! What web requests are held to, how their numbers are scaled, and how failures are answered.
use vstd::prelude::*;

use crate::device::LifxId;
use crate::registry::ManagedLight;
use crate::store::StoreError;
use crate::text::{contains_control, strip_hex_prefix, trim, u64_from_str_radix};
#[allow(unused_imports)]
use crate::store::store_error_text;
#[allow(unused_imports)]
use crate::text::{
    has_control, hex16_reads_back, optional_text, parsed_u64, shown_id, trimmed,
    trimming_is_idempotent, without_hex_prefix,
};
#[allow(unused_imports)]
use vstd::utf8::encode_utf8;

verus! {

pub const BAD_REQUEST: u16 = 400;

pub const NOT_FOUND: u16 = 404;

pub const CONFLICT: u16 = 409;

pub const BAD_GATEWAY: u16 = 502;

pub const SERVICE_UNAVAILABLE: u16 = 503;

/// The longest group name, in bytes.
pub const GROUP_NAME_BYTES: usize = 64;

/// The longest friendly name, in bytes: what a bulb stores as its label.
pub const FRIENDLY_NAME_BYTES: usize = 31;

/// A refused request: the HTTP status and the message of the answer, and what is to be logged.
#[derive(Debug)]
pub struct ApiError {
    pub status: u16,
    pub message: String,
    /// The fault behind the answer, where the caller is not told.
    pub cause: Option<String>,
}

/// What an answer says.
pub ghost struct ApiErrorModel {
    pub status: u16,
    pub message: Seq<char>,
    pub cause: Option<Seq<char>>,
}

impl View for ApiError {
    type V = ApiErrorModel;

    open spec fn view(&self) -> ApiErrorModel {
        ApiErrorModel {
            status: self.status,
            message: self.message@,
            cause: optional_text(self.cause),
        }
    }
}

pub open spec fn refused(status: u16, message: Seq<char>) -> ApiErrorModel {
    ApiErrorModel { status, message, cause: None }
}

/// How a failure of the store is answered: what the caller can mend is told apart, and everything
/// else is a passing fault of the store.
pub open spec fn store_answer(err: StoreError) -> ApiErrorModel {
    match err {
        StoreError::FriendlyNameConflict(name) => refused(
            CONFLICT,
            "A light named '"@ + name@ + "' already exists. Friendly names must be unique."@,
        ),
        StoreError::InvalidFriendlyName(_) => refused(
            BAD_REQUEST,
            "friendly name is invalid; trim whitespace and use 31 UTF-8 bytes or fewer"@,
        ),
        StoreError::GroupNameConflict(name) => refused(
            CONFLICT,
            "A group named '"@ + name@ + "' already exists. Group names must be unique."@,
        ),
        StoreError::InvalidGroupName(_) => refused(
            BAD_REQUEST,
            "group name is invalid; trim whitespace and use 64 UTF-8 bytes or fewer"@,
        ),
        StoreError::UnknownGroup(_) => refused(NOT_FOUND, "unknown light group"@),
        _ => ApiErrorModel {
            status: SERVICE_UNAVAILABLE,
            message: "persistent configuration is temporarily unavailable"@,
            cause: Some(store_error_text(err)),
        },
    }
}

/// How a failed command to a bulb is answered.
pub open spec fn lifx_answer(error: Seq<char>) -> ApiErrorModel {
    refused(BAD_GATEWAY, "LIFX command failed: "@ + error)
}

pub open spec fn unknown_light() -> ApiErrorModel {
    refused(NOT_FOUND, "unknown light"@)
}

pub open spec fn unknown_group() -> ApiErrorModel {
    refused(NOT_FOUND, "unknown light group"@)
}

pub open spec fn control_disabled() -> ApiErrorModel {
    refused(CONFLICT, "SHOCS control is disabled for this light; re-enable it from Manage"@)
}

impl ApiError {
    pub fn bad_request(message: &str) -> (r: ApiError)
        ensures
            r@ == refused(BAD_REQUEST, message@),
    {
        ApiError { status: BAD_REQUEST, message: message.to_string(), cause: None }
    }

    pub fn not_found(message: &str) -> (r: ApiError)
        ensures
            r@ == refused(NOT_FOUND, message@),
    {
        ApiError { status: NOT_FOUND, message: message.to_string(), cause: None }
    }

    pub fn conflict(message: &str) -> (r: ApiError)
        ensures
            r@ == refused(CONFLICT, message@),
    {
        ApiError { status: CONFLICT, message: message.to_string(), cause: None }
    }

    /// `error` is what the bulb's client said.
    pub fn lifx(error: &str) -> (r: ApiError)
        ensures
            r@ == lifx_answer(error@),
    {
        ApiError {
            status: BAD_GATEWAY,
            message: "LIFX command failed: ".to_string().concat(error),
            cause: None,
        }
    }

    pub fn store(err: StoreError) -> (r: ApiError)
        ensures
            r@ == store_answer(err),
    {
        match err {
            StoreError::FriendlyNameConflict(name) => ApiError {
                status: CONFLICT,
                message: "A light named '".to_string().concat(name.as_str()).concat(
                    "' already exists. Friendly names must be unique.",
                ),
                cause: None,
            },
            StoreError::InvalidFriendlyName(_) => ApiError::bad_request(
                "friendly name is invalid; trim whitespace and use 31 UTF-8 bytes or fewer",
            ),
            StoreError::GroupNameConflict(name) => ApiError {
                status: CONFLICT,
                message: "A group named '".to_string().concat(name.as_str()).concat(
                    "' already exists. Group names must be unique.",
                ),
                cause: None,
            },
            StoreError::InvalidGroupName(_) => ApiError::bad_request(
                "group name is invalid; trim whitespace and use 64 UTF-8 bytes or fewer",
            ),
            StoreError::UnknownGroup(_) => ApiError::not_found("unknown light group"),
            other => ApiError {
                status: SERVICE_UNAVAILABLE,
                message: "persistent configuration is temporarily unavailable".to_string(),
                cause: Some(other.message()),
            },
        }
    }
}

/// Commands are refused for a light whose control is disabled.
pub fn require_control_enabled(light: &ManagedLight) -> (r: Result<(), ApiError>)
    ensures
        match r {
            Ok(_) => light.control_enabled,
            Err(err) => !light.control_enabled && err@ == control_disabled(),
        },
{
    if !light.control_enabled {
        return Err(
            ApiError::conflict(
                "SHOCS control is disabled for this light; re-enable it from Manage",
            ),
        );
    }
    Ok(())
}

/// What is wrong with a group name, apart from white space around it.
pub open spec fn group_name_complaint(value: Seq<char>) -> Option<Seq<char>> {
    let name = trimmed(value);
    if name.len() == 0 {
        Some("group name cannot be empty"@)
    } else if has_control(name) {
        Some("group name cannot contain control characters"@)
    } else if encode_utf8(name).len() > GROUP_NAME_BYTES {
        Some("group name must be 64 UTF-8 bytes or fewer"@)
    } else {
        None
    }
}

/// A group name without white space around it.
pub fn normalize_group_name(value: String) -> (r: Result<String, ApiError>)
    ensures
        match (r, group_name_complaint(value@)) {
            (Ok(name), None) => name@ == trimmed(value@),
            (Err(err), Some(text)) => err@ == refused(BAD_REQUEST, text),
            _ => false,
        },
{
    let name = trim(value.as_str());
    if name.unicode_len() == 0 {
        return Err(ApiError::bad_request("group name cannot be empty"));
    }
    if contains_control(name) {
        return Err(ApiError::bad_request("group name cannot contain control characters"));
    }
    if name.as_bytes().len() > GROUP_NAME_BYTES {
        return Err(ApiError::bad_request("group name must be 64 UTF-8 bytes or fewer"));
    }
    Ok(name.to_string())
}

/// What is wrong with a friendly name, apart from white space around it. A blank one is no name.
pub open spec fn friendly_name_complaint(value: Seq<char>) -> Option<Seq<char>> {
    let name = trimmed(value);
    if name.len() == 0 {
        None
    } else if has_control(name) {
        Some("friendly name cannot contain control characters"@)
    } else if encode_utf8(name).len() > FRIENDLY_NAME_BYTES {
        Some("friendly name must be 31 UTF-8 bytes or fewer"@)
    } else {
        None
    }
}

/// A friendly name without white space around it, or none where it is blank.
pub open spec fn friendly_name_in(value: Seq<char>) -> Option<Seq<char>> {
    if trimmed(value).len() == 0 {
        None
    } else {
        Some(trimmed(value))
    }
}

pub fn normalize_friendly_name(value: Option<String>) -> (r: Result<Option<String>, ApiError>)
    ensures
        match value {
            None => r == Ok::<Option<String>, ApiError>(None),
            Some(value) => match (r, friendly_name_complaint(value@)) {
                (Ok(Some(name)), None) => friendly_name_in(value@) == Some(name@),
                (Ok(None), None) => friendly_name_in(value@) is None,
                (Err(err), Some(text)) => err@ == refused(BAD_REQUEST, text),
                _ => false,
            },
        },
{
    let value = match value {
        Some(value) => value,
        None => return Ok(None),
    };
    let name = trim(value.as_str());
    if name.unicode_len() == 0 {
        return Ok(None);
    }
    if contains_control(name) {
        return Err(ApiError::bad_request("friendly name cannot contain control characters"));
    }
    if name.as_bytes().len() > FRIENDLY_NAME_BYTES {
        return Err(ApiError::bad_request("friendly name must be 31 UTF-8 bytes or fewer"));
    }
    Ok(Some(name.to_string()))
}

/// A name that was accepted is accepted again, unchanged.
pub proof fn accepted_names_are_stable(value: Seq<char>)
    ensures
        group_name_complaint(value) is None ==> {
            &&& group_name_complaint(trimmed(value)) is None
            &&& trimmed(trimmed(value)) == trimmed(value)
        },
        friendly_name_complaint(value) is None ==> {
            &&& friendly_name_complaint(trimmed(value)) is None
            &&& friendly_name_in(trimmed(value)) == friendly_name_in(value)
        },
{
    trimming_is_idempotent(value);
}

/// The identifier in the path of a request: hexadecimal digits, with or without `0x`.
pub open spec fn requested_id(value: Seq<char>) -> Option<LifxId> {
    parsed_u64(without_hex_prefix(value), 16)
}

pub open spec fn invalid_id() -> ApiErrorModel {
    refused(BAD_REQUEST, "invalid LIFX ID"@)
}

pub fn parse_lifx_id(value: &str) -> (r: Result<LifxId, ApiError>)
    ensures
        match (r, requested_id(value@)) {
            (Ok(id), Some(read)) => id == read,
            (Err(err), None) => err@ == invalid_id(),
            _ => false,
        },
{
    let hex = strip_hex_prefix(value);
    match u64_from_str_radix(hex, 16) {
        Ok(id) => Ok(id),
        Err(_) => Err(ApiError::bad_request("invalid LIFX ID")),
    }
}

/// An identifier as it is shown names its light in a request.
pub proof fn shown_id_reads_back(id: LifxId)
    ensures
        requested_id(shown_id(id)) == Some(id),
{
    hex16_reads_back(id);
    assert(without_hex_prefix(shown_id(id)) =~= crate::text::hex_text(id as int, 16));
}

/// The integer nearest to `n / d`, the greater one of two.
pub open spec fn rounded(n: int, d: int) -> int {
    (n + d / 2) / d
}

/// Degrees on the 16-bit scale of a bulb; full turns are dropped.
pub open spec fn hue_level(degrees: int) -> int {
    rounded(degrees % 360 * 65_535, 360)
}

/// A hue of a bulb in whole degrees below 360.
pub open spec fn hue_degrees(level: int) -> int {
    rounded(level * 360, 65_535) % 360
}

/// Percent on the 16-bit scale of a bulb.
pub open spec fn percent_level(percent: int) -> int {
    rounded(percent * 65_535, 100)
}

/// A level of a bulb in whole percent.
pub open spec fn level_percent(level: int) -> int {
    rounded(level * 100, 65_535)
}

pub fn hue_degrees_to_u16(degrees: u16) -> (r: u16)
    ensures
        r == hue_level(degrees as int),
{
    let normalized: u32 = (degrees % 360) as u32;
    ((normalized * 65_535 + 180) / 360) as u16
}

pub fn u16_to_hue_degrees(value: u16) -> (r: u16)
    ensures
        r == hue_degrees(value as int),
        r < 360,
{
    ((value as u32 * 360 + 32_767) / 65_535 % 360) as u16
}

/// Percent above 100 wrap around the scale.
pub fn percent_to_u16(percent: u8) -> (r: u16)
    ensures
        r == percent_level(percent as int) % 65_536,
        percent <= 100 ==> r == percent_level(percent as int),
{
    ((percent as u32 * 65_535 + 50) / 100 % 65_536) as u16
}

pub fn u16_to_percent(value: u16) -> (r: u8)
    ensures
        r == level_percent(value as int),
        r <= 100,
{
    ((value as u32 * 100 + 32_767) / 65_535) as u8
}

/// Whole percent survive the way to a bulb's scale and back.
pub proof fn percent_reads_back(percent: int)
    requires
        0 <= percent <= 100,
    ensures
        0 <= percent_level(percent) <= 65_535,
        level_percent(percent_level(percent)) == percent,
{
}

/// Whole degrees survive the way to a bulb's scale and back; a full turn comes back as none.
pub proof fn hue_reads_back(degrees: int)
    requires
        0 <= degrees <= 360,
    ensures
        0 <= hue_level(degrees) <= 65_535,
        hue_degrees(hue_level(degrees)) == degrees % 360,
{
}

/// More percent never give a lower level, nor a higher level fewer percent.
pub proof fn percent_is_monotone(a: int, b: int)
    requires
        0 <= a <= b,
    ensures
        percent_level(a) <= percent_level(b),
        level_percent(a) <= level_percent(b),
{
}

} // verus!
