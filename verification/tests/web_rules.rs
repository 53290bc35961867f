use shocs_lc::clock::{Duration, Instant};
use shocs_lc::device::LifxDevice;
use shocs_lc::registry::{LightMode, ManagedLight};
use shocs_lc::store::StoreError;
use shocs_lc::text::format_shown_id;
use shocs_lc::web::{
    hue_degrees_to_u16, normalize_friendly_name, normalize_group_name, parse_lifx_id,
    percent_to_u16, require_control_enabled, u16_to_hue_degrees, u16_to_percent, ApiError,
};

fn answer(err: ApiError) -> (u16, String) {
    (err.status, err.message)
}

#[test]
fn percent_survive_the_round_trip() {
    for percent in 0..=100u8 {
        assert_eq!(u16_to_percent(percent_to_u16(percent)), percent);
    }
    assert_eq!(percent_to_u16(0), 0);
    assert_eq!(percent_to_u16(50), 32_768);
    assert_eq!(percent_to_u16(100), u16::MAX);
    assert_eq!(percent_to_u16(255), ((255u32 * 65_535 + 50) / 100) as u16);
    assert_eq!(u16_to_percent(55_000), 84);
    for level in 1..=u16::MAX {
        assert!(u16_to_percent(level - 1) <= u16_to_percent(level));
    }
}

#[test]
fn degrees_survive_the_round_trip() {
    for degrees in 0..=360u16 {
        assert_eq!(u16_to_hue_degrees(hue_degrees_to_u16(degrees)), degrees % 360);
    }
    assert_eq!(hue_degrees_to_u16(180), 32_768);
    assert_eq!(hue_degrees_to_u16(360), 0);
    assert_eq!(hue_degrees_to_u16(725), hue_degrees_to_u16(5));
    assert_eq!(u16_to_hue_degrees(u16::MAX), 0);
    assert_eq!(u16_to_hue_degrees(21_845), 120);
}

#[test]
fn shown_identifiers_name_their_light() {
    for id in [0, 1, 0xd073_d5ab_cdef, u64::MAX] {
        assert_eq!(parse_lifx_id(&format_shown_id(id)).unwrap(), id);
    }
    assert_eq!(parse_lifx_id("D0").unwrap(), 0xd0);
    assert_eq!(
        answer(parse_lifx_id("lamp").unwrap_err()),
        (400, "invalid LIFX ID".to_string())
    );
}

#[test]
fn group_names_are_trimmed_and_limited() {
    let name = |text: &str| normalize_group_name(text.to_string()).map_err(|err| err.message);
    assert_eq!(name("  Living room "), Ok("Living room".to_string()));
    assert_eq!(name("   "), Err("group name cannot be empty".to_string()));
    assert_eq!(name("a\tb"), Err("group name cannot contain control characters".to_string()));
    assert_eq!(name(&"x".repeat(64)), Ok("x".repeat(64)));
    assert_eq!(name(&"é".repeat(33)), Err("group name must be 64 UTF-8 bytes or fewer".to_string()));
    assert_eq!(normalize_group_name(String::new()).unwrap_err().status, 400);
}

#[test]
fn friendly_names_are_trimmed_and_limited() {
    let name = |text: &str| {
        normalize_friendly_name(Some(text.to_string())).map_err(|err| err.message)
    };
    assert_eq!(normalize_friendly_name(None).unwrap(), None);
    assert_eq!(name(" \n "), Ok(None));
    assert_eq!(name(" Desk "), Ok(Some("Desk".to_string())));
    assert_eq!(name(&name(" Desk ").unwrap().unwrap()), Ok(Some("Desk".to_string())));
    assert_eq!(name("a\u{0}b"), Err("friendly name cannot contain control characters".to_string()));
    assert_eq!(name(&"x".repeat(31)), Ok(Some("x".repeat(31))));
    assert_eq!(name(&"x".repeat(32)), Err("friendly name must be 31 UTF-8 bytes or fewer".to_string()));
    assert_eq!(name("ééééééééééééééé!"), Ok(Some("ééééééééééééééé!".to_string())));
    assert!(name("éééééééééééééééé").is_err());
}

#[test]
fn failures_are_answered_by_kind() {
    assert_eq!(answer(ApiError::bad_request("b")), (400, "b".to_string()));
    assert_eq!(answer(ApiError::not_found("n")), (404, "n".to_string()));
    assert_eq!(answer(ApiError::conflict("c")), (409, "c".to_string()));
    assert_eq!(answer(ApiError::lifx("timeout")), (502, "LIFX command failed: timeout".to_string()));
    let store = |err: StoreError| answer(ApiError::store(err));
    assert_eq!(
        store(StoreError::FriendlyNameConflict("Desk".into())),
        (409, "A light named 'Desk' already exists. Friendly names must be unique.".to_string())
    );
    assert_eq!(
        store(StoreError::GroupNameConflict("Hall".into())),
        (409, "A group named 'Hall' already exists. Group names must be unique.".to_string())
    );
    assert_eq!(
        store(StoreError::InvalidFriendlyName("x".into())),
        (
            400,
            "friendly name is invalid; trim whitespace and use 31 UTF-8 bytes or fewer".to_string()
        )
    );
    assert_eq!(
        store(StoreError::InvalidGroupName("x".into())),
        (400, "group name is invalid; trim whitespace and use 64 UTF-8 bytes or fewer".to_string())
    );
    assert_eq!(store(StoreError::UnknownGroup(1)), (404, "unknown light group".to_string()));
    let cause = |err: StoreError| ApiError::store(err).cause;
    assert_eq!(
        cause(StoreError::UnknownLight(1)).as_deref(),
        Some("unknown persisted light 0x0000000000000001")
    );
    assert_eq!(cause(StoreError::UnknownGroup(1)), None);
    for err in [
        StoreError::UnknownLight(1),
        StoreError::InvalidMode("x".into()),
        StoreError::InvalidLifxId("x".into()),
        StoreError::Sqlx(sqlx::Error::PoolTimedOut),
        StoreError::Migrate(sqlx::migrate::MigrateError::VersionMissing(1)),
    ] {
        assert_eq!(
            store(err),
            (503, "persistent configuration is temporarily unavailable".to_string())
        );
    }
}

#[test]
fn a_disabled_light_is_not_commanded() {
    let mut light = ManagedLight {
        device: LifxDevice { id: 1, addr: String::new() },
        label: None,
        friendly_name: None,
        control_enabled: true,
        mode: LightMode::Custom,
        observed: None,
        desired_power: None,
        desired_color: None,
        desired_brightness: None,
        brightness_transition: None,
        power_override: None,
        last_discovered: Instant::at(Duration::from_secs(0)),
        last_observed: None,
    };
    assert!(require_control_enabled(&light).is_ok());
    light.control_enabled = false;
    assert_eq!(
        answer(require_control_enabled(&light).unwrap_err()),
        (409, "SHOCS control is disabled for this light; re-enable it from Manage".to_string())
    );
}
