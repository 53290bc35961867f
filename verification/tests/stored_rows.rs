use std::borrow::Cow;
use std::error::Error;
use std::fmt;

use shocs_lc::registry::LightMode;
use shocs_lc::store::{
    created_group, decode_light, format_lifx_id, friendly_name_error, group_name_error, load_groups,
    load_lights, map_friendly_name_error, map_group_name_error, parse_lifx_id, require_group,
    require_one_group, require_one_row, GroupRow, LightRow, StoreError,
};
use sqlx::error::{DatabaseError, ErrorKind};

#[derive(Debug)]
struct Violation(&'static str);

impl fmt::Display for Violation {
    fn fmt(&self, f: &mut fmt::Formatter<'_>) -> fmt::Result {
        f.write_str("violation")
    }
}

impl Error for Violation {}

impl DatabaseError for Violation {
    fn message(&self) -> &str {
        "violation"
    }

    fn code(&self) -> Option<Cow<'_, str>> {
        Some(Cow::Borrowed(self.0))
    }

    fn as_error(&self) -> &(dyn Error + Send + Sync + 'static) {
        self
    }

    fn as_error_mut(&mut self) -> &mut (dyn Error + Send + Sync + 'static) {
        self
    }

    fn into_error(self: Box<Self>) -> Box<dyn Error + Send + Sync + 'static> {
        self
    }

    fn kind(&self) -> ErrorKind {
        ErrorKind::Other
    }
}

fn violation(code: &'static str) -> sqlx::Error {
    sqlx::Error::Database(Box::new(Violation(code)))
}

fn row(id: &str, mode: &str) -> LightRow {
    LightRow {
        lifx_id: Ok(id.to_string()),
        device_label: Ok(Some("bulb".to_string())),
        friendly_name: Ok(None),
        control_enabled: Ok(true),
        mode: Ok(mode.to_string()),
    }
}

fn member(id: i64, name: &str, lifx_id: Option<&str>) -> GroupRow {
    GroupRow {
        id: Ok(id),
        name: Ok(name.to_string()),
        lifx_id: Ok(lifx_id.map(str::to_string)),
    }
}

#[test]
fn stored_identifiers_read_back() {
    for id in [0, 1, 0xd073_d5ab_cdef, u64::MAX] {
        assert_eq!(parse_lifx_id(&format_lifx_id(id)).unwrap(), id);
    }
    assert_eq!(format_lifx_id(0xd073_d5ab_cdef), "0000d073d5abcdef");
    assert_eq!(parse_lifx_id("+1F").unwrap(), 31);
    for text in ["", "+", "0x1", "g", "-1", "10000000000000000"] {
        assert!(matches!(parse_lifx_id(text), Err(StoreError::InvalidLifxId(t)) if t == text));
    }
}

#[test]
fn statements_must_touch_exactly_one_row() {
    assert!(require_one_row(7, 1).is_ok());
    assert!(matches!(require_one_row(7, 0), Err(StoreError::UnknownLight(7))));
    assert!(matches!(require_one_row(7, 2), Err(StoreError::UnknownLight(7))));
    assert!(require_one_group(-3, 1).is_ok());
    assert!(matches!(require_one_group(-3, 0), Err(StoreError::UnknownGroup(-3))));
    assert!(require_group(5, true).is_ok());
    assert!(matches!(require_group(5, false), Err(StoreError::UnknownGroup(5))));
}

#[test]
fn name_violations_are_told_apart() {
    assert!(matches!(
        map_friendly_name_error(violation("23505"), Some("Desk")),
        StoreError::FriendlyNameConflict(n) if n == "Desk"
    ));
    assert!(matches!(
        map_friendly_name_error(violation("23514"), None),
        StoreError::InvalidFriendlyName(n) if n.is_empty()
    ));
    assert!(matches!(map_friendly_name_error(violation("42P01"), Some("Desk")), StoreError::Sqlx(_)));
    assert!(matches!(
        map_friendly_name_error(sqlx::Error::RowNotFound, Some("Desk")),
        StoreError::Sqlx(sqlx::Error::RowNotFound)
    ));
    assert!(matches!(
        map_group_name_error(violation("23505"), "Hall"),
        StoreError::GroupNameConflict(n) if n == "Hall"
    ));
    assert!(matches!(
        map_group_name_error(violation("23514"), "Hall"),
        StoreError::InvalidGroupName(n) if n == "Hall"
    ));
    assert!(matches!(map_group_name_error(sqlx::Error::PoolClosed, "Hall"), StoreError::Sqlx(_)));
}

#[test]
fn a_known_code_decides_the_name_error() {
    let code = |text: &str| Some(text.to_string());
    assert!(matches!(
        friendly_name_error(sqlx::Error::RowNotFound, code("23505"), Some("x")),
        StoreError::FriendlyNameConflict(_)
    ));
    assert!(matches!(
        friendly_name_error(sqlx::Error::RowNotFound, None, Some("x")),
        StoreError::Sqlx(_)
    ));
    assert!(matches!(
        group_name_error(sqlx::Error::RowNotFound, code("23514"), "x"),
        StoreError::InvalidGroupName(_)
    ));
}

#[test]
fn store_errors_have_messages() {
    let text = |err: StoreError| err.message();
    assert_eq!(
        text(StoreError::from(sqlx::Error::RowNotFound)),
        format!("database error: {}", sqlx::Error::RowNotFound)
    );
    let missing = || sqlx::migrate::MigrateError::VersionMissing(3);
    assert_eq!(
        text(StoreError::from(missing())),
        format!("database migration error: {}", missing())
    );
    assert_eq!(text(StoreError::InvalidLifxId("q".into())), "invalid persisted LIFX ID 'q'");
    assert_eq!(text(StoreError::InvalidMode("q".into())), "invalid persisted light mode 'q'");
    assert_eq!(text(StoreError::UnknownLight(1)), "unknown persisted light 0x0000000000000001");
    assert_eq!(text(StoreError::FriendlyNameConflict("q".into())), "friendly name 'q' is already in use");
    assert_eq!(
        text(StoreError::InvalidFriendlyName("q".into())),
        "friendly name 'q' violates database constraints"
    );
    assert_eq!(text(StoreError::UnknownGroup(-4)), "unknown light group -4");
    assert_eq!(text(StoreError::GroupNameConflict("q".into())), "group name 'q' is already in use");
    assert_eq!(
        text(StoreError::InvalidGroupName("q".into())),
        "group name 'q' violates database constraints"
    );
}

#[test]
fn light_rows_are_decoded_column_by_column() {
    let light = decode_light(row("00000000000000ff", "test")).unwrap();
    assert_eq!(light.id, 255);
    assert_eq!(light.device_label.as_deref(), Some("bulb"));
    assert_eq!(light.friendly_name, None);
    assert!(light.control_enabled);
    assert_eq!(light.mode, LightMode::Test);

    assert!(matches!(decode_light(row("zz", "nope")), Err(StoreError::InvalidLifxId(t)) if t == "zz"));
    assert!(matches!(decode_light(row("ff", "nope")), Err(StoreError::InvalidMode(t)) if t == "nope"));

    let mut bad = row("zz", "test");
    bad.mode = Err(sqlx::Error::PoolClosed);
    assert!(matches!(decode_light(bad), Err(StoreError::Sqlx(sqlx::Error::PoolClosed))));
    let mut bad = row("ff", "nope");
    bad.device_label = Err(sqlx::Error::PoolClosed);
    assert!(matches!(decode_light(bad), Err(StoreError::InvalidMode(_))));
    let mut bad = row("ff", "custom");
    bad.lifx_id = Err(sqlx::Error::RowNotFound);
    bad.mode = Err(sqlx::Error::PoolClosed);
    assert!(matches!(decode_light(bad), Err(StoreError::Sqlx(sqlx::Error::RowNotFound))));
    let mut bad = row("ff", "custom");
    bad.friendly_name = Err(sqlx::Error::RowNotFound);
    bad.control_enabled = Err(sqlx::Error::PoolClosed);
    assert!(matches!(decode_light(bad), Err(StoreError::Sqlx(sqlx::Error::RowNotFound))));
}

#[test]
fn the_first_bad_light_row_decides() {
    let ids: Vec<u64> = load_lights(vec![row("1", "test"), row("2", "custom")])
        .unwrap()
        .into_iter()
        .map(|light| light.id)
        .collect();
    assert_eq!(ids, vec![1, 2]);
    let err = load_lights(vec![row("1", "test"), row("2", "bad"), row("zz", "test")]).unwrap_err();
    assert!(matches!(err, StoreError::InvalidMode(t) if t == "bad"));
}

#[test]
fn group_rows_are_gathered_in_order_of_appearance() {
    let groups = load_groups(vec![
        member(4, "attic", Some("0a")),
        member(4, "ignored", Some("0b")),
        member(2, "Hall", None),
        member(4, "ignored", Some("03")),
    ])
    .unwrap();
    let seen: Vec<(i64, &str, Vec<u64>)> =
        groups.iter().map(|g| (g.id, g.name.as_str(), g.member_ids.clone())).collect();
    assert_eq!(seen, vec![(4, "attic", vec![10, 11, 3]), (2, "Hall", vec![])]);
    assert!(load_groups(Vec::new()).unwrap().is_empty());
}

#[test]
fn the_first_bad_group_row_decides() {
    let err = load_groups(vec![member(1, "a", Some("xyz")), member(2, "b", Some("q"))]).unwrap_err();
    assert!(matches!(err, StoreError::InvalidLifxId(t) if t == "xyz"));

    let unreadable = |id: Result<i64, sqlx::Error>| GroupRow {
        id,
        name: Err(sqlx::Error::RowNotFound),
        lifx_id: Err(sqlx::Error::PoolClosed),
    };
    assert!(matches!(
        load_groups(vec![unreadable(Err(sqlx::Error::PoolTimedOut))]),
        Err(StoreError::Sqlx(sqlx::Error::PoolTimedOut))
    ));
    assert!(matches!(
        load_groups(vec![unreadable(Ok(1))]),
        Err(StoreError::Sqlx(sqlx::Error::RowNotFound))
    ));
    // The name is read in a group's first row only.
    assert!(matches!(
        load_groups(vec![member(1, "a", None), unreadable(Ok(1))]),
        Err(StoreError::Sqlx(sqlx::Error::PoolClosed))
    ));
}

#[test]
fn a_new_group_has_no_members() {
    let group = created_group(Ok(9), Ok("den".to_string())).unwrap();
    assert_eq!((group.id, group.name.as_str(), group.member_ids.len()), (9, "den", 0));
    assert!(matches!(
        created_group(Err(sqlx::Error::RowNotFound), Err(sqlx::Error::PoolClosed)),
        Err(StoreError::Sqlx(sqlx::Error::RowNotFound))
    ));
    assert!(matches!(
        created_group(Ok(1), Err(sqlx::Error::PoolClosed)),
        Err(StoreError::Sqlx(sqlx::Error::PoolClosed))
    ));
}
