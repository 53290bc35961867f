//! Stored configuration: how rows are read, how identifiers are written, and what can go wrong.
use std::collections::HashMap;

use vstd::prelude::*;

use crate::device::LifxId;
use crate::registry::LightMode;
use crate::text::{format_hex16, format_shown_id, push_signed, same_text, u64_from_str_radix};
#[allow(unused_imports)]
use crate::registry::{mode_name, mode_name_reads_back, mode_named};
#[allow(unused_imports)]
use crate::text::{
    hex16_reads_back, hex_text, optional_text, parsed_u64, shown_id, signed_text,
};

verus! {

broadcast use vstd::std_specs::hash::group_hash_axioms;

/// The error of `sqlx`.
#[verifier::external_type_specification]
#[verifier::external_body]
pub struct ExSqlxError(sqlx::Error);

/// The migration error of `sqlx`.
#[verifier::external_type_specification]
#[verifier::external_body]
pub struct ExMigrateError(sqlx::migrate::MigrateError);

/// The SQLSTATE code that a database error carries; no other error of `sqlx` has one.
pub uninterp spec fn sqlstate_of(err: sqlx::Error) -> Option<Seq<char>>;

/// How `sqlx` words one of its errors.
pub uninterp spec fn sqlx_error_text(err: sqlx::Error) -> Seq<char>;

/// How `sqlx` words a migration error.
pub uninterp spec fn migrate_error_text(err: sqlx::migrate::MigrateError) -> Seq<char>;

/// `sqlx::error::DatabaseError::code`, asked of the database error inside a `sqlx::Error`: the
/// SQLSTATE code, where the server sent one.
#[verifier::external_body]
fn sqlstate(err: &sqlx::Error) -> (code: Option<String>)
    ensures
        optional_text(code) == sqlstate_of(*err),
{
    match err {
        sqlx::Error::Database(error) => error.code().map(|code| code.into_owned()),
        _ => None,
    }
}

/// The `Display` text of a `sqlx::Error`.
#[verifier::external_body]
fn sqlx_error_to_string(err: &sqlx::Error) -> (r: String)
    ensures
        r@ == sqlx_error_text(*err),
{
    err.to_string()
}

/// The `Display` text of a `sqlx::migrate::MigrateError`.
#[verifier::external_body]
fn migrate_error_to_string(err: &sqlx::migrate::MigrateError) -> (r: String)
    ensures
        r@ == migrate_error_text(*err),
{
    err.to_string()
}

/// The durable configuration of one light.
#[derive(Debug)]
pub struct StoredLight {
    pub id: LifxId,
    pub device_label: Option<String>,
    pub friendly_name: Option<String>,
    pub control_enabled: bool,
    pub mode: LightMode,
}

impl Clone for StoredLight {
    fn clone(&self) -> (r: StoredLight)
        ensures
            r == *self,
    {
        StoredLight {
            id: self.id,
            device_label: crate::text::clone_optional(&self.device_label),
            friendly_name: crate::text::clone_optional(&self.friendly_name),
            control_enabled: self.control_enabled,
            mode: self.mode,
        }
    }
}

/// The durable configuration of one group.
#[derive(Debug)]
pub struct StoredGroup {
    pub id: i64,
    pub name: String,
    pub member_ids: Vec<LifxId>,
}

/// What a group is, apart from how it is held in memory.
#[verifier::ext_equal]
pub struct GroupModel {
    pub id: i64,
    pub name: Seq<char>,
    pub member_ids: Seq<LifxId>,
}

impl View for StoredGroup {
    type V = GroupModel;

    open spec fn view(&self) -> GroupModel {
        GroupModel { id: self.id, name: self.name@, member_ids: self.member_ids@ }
    }
}

#[derive(Debug)]
pub enum StoreError {
    Sqlx(sqlx::Error),
    Migrate(sqlx::migrate::MigrateError),
    InvalidLifxId(String),
    InvalidMode(String),
    UnknownLight(LifxId),
    FriendlyNameConflict(String),
    InvalidFriendlyName(String),
    UnknownGroup(i64),
    GroupNameConflict(String),
    InvalidGroupName(String),
}

impl From<sqlx::Error> for StoreError {
    fn from(value: sqlx::Error) -> (r: StoreError) {
        StoreError::Sqlx(value)
    }
}

impl vstd::std_specs::convert::FromSpecImpl<sqlx::Error> for StoreError {
    open spec fn obeys_from_spec() -> bool {
        true
    }

    open spec fn from_spec(value: sqlx::Error) -> StoreError {
        StoreError::Sqlx(value)
    }
}

impl From<sqlx::migrate::MigrateError> for StoreError {
    fn from(value: sqlx::migrate::MigrateError) -> (r: StoreError) {
        StoreError::Migrate(value)
    }
}

impl vstd::std_specs::convert::FromSpecImpl<sqlx::migrate::MigrateError> for StoreError {
    open spec fn obeys_from_spec() -> bool {
        true
    }

    open spec fn from_spec(value: sqlx::migrate::MigrateError) -> StoreError {
        StoreError::Migrate(value)
    }
}

/// How an error of the store is worded.
pub open spec fn store_error_text(err: StoreError) -> Seq<char> {
    match err {
        StoreError::Sqlx(err) => "database error: "@ + sqlx_error_text(err),
        StoreError::Migrate(err) => "database migration error: "@ + migrate_error_text(err),
        StoreError::InvalidLifxId(value) => "invalid persisted LIFX ID '"@ + value@ + "'"@,
        StoreError::InvalidMode(value) => "invalid persisted light mode '"@ + value@ + "'"@,
        StoreError::UnknownLight(id) => "unknown persisted light "@ + shown_id(id),
        StoreError::FriendlyNameConflict(name) => "friendly name '"@ + name@
            + "' is already in use"@,
        StoreError::InvalidFriendlyName(name) => "friendly name '"@ + name@
            + "' violates database constraints"@,
        StoreError::UnknownGroup(id) => "unknown light group "@ + signed_text(id as int),
        StoreError::GroupNameConflict(name) => "group name '"@ + name@ + "' is already in use"@,
        StoreError::InvalidGroupName(name) => "group name '"@ + name@
            + "' violates database constraints"@,
    }
}

impl StoreError {
    /// The message shown to an operator.
    pub fn message(&self) -> (r: String)
        ensures
            r@ == store_error_text(*self),
    {
        match self {
            StoreError::Sqlx(err) => "database error: ".to_string().concat(
                sqlx_error_to_string(err).as_str(),
            ),
            StoreError::Migrate(err) => "database migration error: ".to_string().concat(
                migrate_error_to_string(err).as_str(),
            ),
            StoreError::InvalidLifxId(value) => "invalid persisted LIFX ID '".to_string().concat(
                value.as_str(),
            ).concat("'"),
            StoreError::InvalidMode(value) => "invalid persisted light mode '".to_string().concat(
                value.as_str(),
            ).concat("'"),
            StoreError::UnknownLight(id) => "unknown persisted light ".to_string().concat(
                format_shown_id(*id).as_str(),
            ),
            StoreError::FriendlyNameConflict(name) => "friendly name '".to_string().concat(
                name.as_str(),
            ).concat("' is already in use"),
            StoreError::InvalidFriendlyName(name) => "friendly name '".to_string().concat(
                name.as_str(),
            ).concat("' violates database constraints"),
            StoreError::UnknownGroup(id) => {
                let mut out = "unknown light group ".to_string();
                push_signed(&mut out, *id);
                out
            },
            StoreError::GroupNameConflict(name) => "group name '".to_string().concat(
                name.as_str(),
            ).concat("' is already in use"),
            StoreError::InvalidGroupName(name) => "group name '".to_string().concat(
                name.as_str(),
            ).concat("' violates database constraints"),
        }
    }
}

/// `r` is the error for a friendly-name write that failed with `err`, given its SQLSTATE code:
/// 23505 is a unique violation and 23514 a check violation.
pub open spec fn is_friendly_name_error(
    r: StoreError,
    err: sqlx::Error,
    code: Option<Seq<char>>,
    name: Seq<char>,
) -> bool {
    if code == Some("23505"@) {
        r matches StoreError::FriendlyNameConflict(n) && n@ == name
    } else if code == Some("23514"@) {
        r matches StoreError::InvalidFriendlyName(n) && n@ == name
    } else {
        r == StoreError::Sqlx(err)
    }
}

/// `r` is the error for a group-name write that failed with `err`, given its SQLSTATE code.
pub open spec fn is_group_name_error(
    r: StoreError,
    err: sqlx::Error,
    code: Option<Seq<char>>,
    name: Seq<char>,
) -> bool {
    if code == Some("23505"@) {
        r matches StoreError::GroupNameConflict(n) && n@ == name
    } else if code == Some("23514"@) {
        r matches StoreError::InvalidGroupName(n) && n@ == name
    } else {
        r == StoreError::Sqlx(err)
    }
}

/// The text of an optional name; a missing one counts as empty.
pub open spec fn name_or_empty(name: Option<&str>) -> Seq<char> {
    match name {
        Some(name) => name@,
        None => Seq::empty(),
    }
}

/// The error for a failed friendly-name write whose SQLSTATE code is known.
pub fn friendly_name_error(
    err: sqlx::Error,
    code: Option<String>,
    friendly_name: Option<&str>,
) -> (r: StoreError)
    ensures
        is_friendly_name_error(r, err, optional_text(code), name_or_empty(friendly_name)),
{
    proof {
        reveal_strlit("23505");
        reveal_strlit("23514");
        assert("23505"@[3] != "23514"@[3]);
    }
    let name: String = match friendly_name {
        Some(name) => name.to_string(),
        None => String::new(),
    };
    match code {
        Some(code) => {
            if same_text(code.as_str(), "23505") {
                StoreError::FriendlyNameConflict(name)
            } else if same_text(code.as_str(), "23514") {
                StoreError::InvalidFriendlyName(name)
            } else {
                StoreError::Sqlx(err)
            }
        },
        None => StoreError::Sqlx(err),
    }
}

/// The error for a failed group-name write whose SQLSTATE code is known.
pub fn group_name_error(err: sqlx::Error, code: Option<String>, name: &str) -> (r: StoreError)
    ensures
        is_group_name_error(r, err, optional_text(code), name@),
{
    proof {
        reveal_strlit("23505");
        reveal_strlit("23514");
        assert("23505"@[3] != "23514"@[3]);
    }
    match code {
        Some(code) => {
            if same_text(code.as_str(), "23505") {
                StoreError::GroupNameConflict(name.to_string())
            } else if same_text(code.as_str(), "23514") {
                StoreError::InvalidGroupName(name.to_string())
            } else {
                StoreError::Sqlx(err)
            }
        },
        None => StoreError::Sqlx(err),
    }
}

pub fn map_friendly_name_error(err: sqlx::Error, friendly_name: Option<&str>) -> (r: StoreError)
    ensures
        is_friendly_name_error(r, err, sqlstate_of(err), name_or_empty(friendly_name)),
{
    let code = sqlstate(&err);
    friendly_name_error(err, code, friendly_name)
}

pub fn map_group_name_error(err: sqlx::Error, name: &str) -> (r: StoreError)
    ensures
        is_group_name_error(r, err, sqlstate_of(err), name@),
{
    let code = sqlstate(&err);
    group_name_error(err, code, name)
}

/// A statement about one group must have touched exactly one row.
pub fn require_one_group(id: i64, rows_affected: u64) -> (r: Result<(), StoreError>)
    ensures
        r == (if rows_affected == 1 {
            Ok::<(), StoreError>(())
        } else {
            Err(StoreError::UnknownGroup(id))
        }),
{
    if rows_affected != 1 {
        return Err(StoreError::UnknownGroup(id));
    }
    Ok(())
}

/// The members of a group can only be replaced where the group exists.
pub fn require_group(id: i64, exists: bool) -> (r: Result<(), StoreError>)
    ensures
        r == (if exists {
            Ok::<(), StoreError>(())
        } else {
            Err(StoreError::UnknownGroup(id))
        }),
{
    if !exists {
        return Err(StoreError::UnknownGroup(id));
    }
    Ok(())
}

/// The group that a newly stored row describes: it has no members yet.
pub fn created_group(id: Result<i64, sqlx::Error>, name: Result<String, sqlx::Error>) -> (r: Result<
    StoredGroup,
    StoreError,
>)
    ensures
        match (id, name) {
            (Err(err), _) => r == Err::<StoredGroup, StoreError>(StoreError::Sqlx(err)),
            (Ok(_), Err(err)) => r == Err::<StoredGroup, StoreError>(StoreError::Sqlx(err)),
            (Ok(id), Ok(name)) => r matches Ok(group) && group@ == (GroupModel {
                id,
                name: name@,
                member_ids: Seq::empty(),
            }),
        },
{
    match (id, name) {
        (Err(err), _) => Err(StoreError::Sqlx(err)),
        (Ok(_), Err(err)) => Err(StoreError::Sqlx(err)),
        (Ok(id), Ok(name)) => {
            let group = StoredGroup { id, name, member_ids: Vec::new() };
            assert(group.member_ids@ =~= Seq::empty());
            Ok(group)
        },
    }
}

/// A statement about one light must have touched exactly one row.
pub fn require_one_row(id: LifxId, rows_affected: u64) -> (r: Result<(), StoreError>)
    ensures
        r == (if rows_affected == 1 {
            Ok::<(), StoreError>(())
        } else {
            Err(StoreError::UnknownLight(id))
        }),
{
    if rows_affected != 1 {
        return Err(StoreError::UnknownLight(id));
    }
    Ok(())
}

/// Reads a stored identifier.
pub fn parse_lifx_id(value: &str) -> (r: Result<LifxId, StoreError>)
    ensures
        match r {
            Ok(id) => parsed_u64(value@, 16) == Some(id),
            Err(err) => {
                &&& parsed_u64(value@, 16) is None
                &&& err matches StoreError::InvalidLifxId(text)
                &&& text@ == value@
            },
        },
{
    match u64_from_str_radix(value, 16) {
        Ok(id) => Ok(id),
        Err(_) => Err(StoreError::InvalidLifxId(value.to_string())),
    }
}

/// Writes an identifier as it is stored.
pub fn format_lifx_id(id: LifxId) -> (r: String)
    ensures
        r@ == hex_text(id as int, 16),
{
    format_hex16(id)
}

/// A stored identifier reads back as the identifier that was written: for the text that
/// [`format_lifx_id`] gives, [`parse_lifx_id`] owes success with the same identifier.
pub proof fn stored_id_reads_back(id: LifxId)
    ensures
        parsed_u64(hex_text(id as int, 16), 16) == Some(id),
{
    hex16_reads_back(id);
}

/// The columns of a light row, each as the database gave it.
pub struct LightRow {
    pub lifx_id: Result<String, sqlx::Error>,
    pub device_label: Result<Option<String>, sqlx::Error>,
    pub friendly_name: Result<Option<String>, sqlx::Error>,
    pub control_enabled: Result<bool, sqlx::Error>,
    pub mode: Result<String, sqlx::Error>,
}

/// The first column that cannot be read decides the error: identifier and mode before the rest,
/// and a readable but meaningless identifier or mode before the remaining columns.
pub open spec fn is_decoded(row: LightRow, r: Result<StoredLight, StoreError>) -> bool {
    match (row.lifx_id, row.mode) {
        (Err(err), _) => r == Err::<StoredLight, StoreError>(StoreError::Sqlx(err)),
        (Ok(_), Err(err)) => r == Err::<StoredLight, StoreError>(StoreError::Sqlx(err)),
        (Ok(id_text), Ok(mode_text)) => {
            match (parsed_u64(id_text@, 16), mode_named(mode_text@)) {
                (None, _) => {
                    &&& r matches Err(StoreError::InvalidLifxId(text))
                    &&& text@ == id_text@
                },
                (Some(_), None) => {
                    &&& r matches Err(StoreError::InvalidMode(text))
                    &&& text@ == mode_text@
                },
                (Some(id), Some(mode)) => match (
                    row.device_label,
                    row.friendly_name,
                    row.control_enabled,
                ) {
                    (Err(err), _, _) => r == Err::<StoredLight, StoreError>(StoreError::Sqlx(err)),
                    (Ok(_), Err(err), _) => r == Err::<StoredLight, StoreError>(
                        StoreError::Sqlx(err),
                    ),
                    (Ok(_), Ok(_), Err(err)) => r == Err::<StoredLight, StoreError>(
                        StoreError::Sqlx(err),
                    ),
                    (Ok(device_label), Ok(friendly_name), Ok(control_enabled)) => r == Ok::<
                        StoredLight,
                        StoreError,
                    >(StoredLight { id, device_label, friendly_name, control_enabled, mode }),
                },
            }
        },
    }
}

pub fn decode_light(row: LightRow) -> (r: Result<StoredLight, StoreError>)
    ensures
        is_decoded(row, r),
{
    let lifx_id = match row.lifx_id {
        Ok(value) => value,
        Err(err) => return Err(StoreError::Sqlx(err)),
    };
    let mode = match row.mode {
        Ok(value) => value,
        Err(err) => return Err(StoreError::Sqlx(err)),
    };
    let id: LifxId = match parse_lifx_id(lifx_id.as_str()) {
        Ok(id) => id,
        Err(err) => return Err(err),
    };
    let mode = match LightMode::from_str(mode.as_str()) {
        Some(mode) => mode,
        None => return Err(StoreError::InvalidMode(mode)),
    };
    let device_label = match row.device_label {
        Ok(value) => value,
        Err(err) => return Err(StoreError::Sqlx(err)),
    };
    let friendly_name = match row.friendly_name {
        Ok(value) => value,
        Err(err) => return Err(StoreError::Sqlx(err)),
    };
    let control_enabled = match row.control_enabled {
        Ok(value) => value,
        Err(err) => return Err(StoreError::Sqlx(err)),
    };
    Ok(StoredLight { id, device_label, friendly_name, control_enabled, mode })
}

pub open spec fn decodes(row: LightRow) -> bool {
    exists|light: StoredLight| is_decoded(row, Ok::<StoredLight, StoreError>(light))
}

/// Every row decoded, or the error of the first row that cannot be.
pub open spec fn are_decoded(
    rows: Seq<LightRow>,
    r: Result<Vec<StoredLight>, StoreError>,
) -> bool {
    match r {
        Ok(lights) => {
            &&& lights@.len() == rows.len()
            &&& forall|i: int|
                0 <= i < rows.len() ==> is_decoded(
                    #[trigger] rows[i],
                    Ok::<StoredLight, StoreError>(lights@[i]),
                )
        },
        Err(err) => exists|i: int|
            {
                &&& 0 <= i < rows.len()
                &&& is_decoded(#[trigger] rows[i], Err::<StoredLight, StoreError>(err))
                &&& forall|j: int| 0 <= j < i ==> decodes(#[trigger] rows[j])
            },
    }
}

/// Decodes every row of the stored lights, in their order; the first bad row decides the error.
pub fn load_lights(rows: Vec<LightRow>) -> (r: Result<Vec<StoredLight>, StoreError>)
    ensures
        are_decoded(rows@, r),
{
    let mut lights: Vec<StoredLight> = Vec::new();
    for row in it: rows
        invariant
            it.seq() == rows@,
            lights@.len() == it.index(),
            forall|j: int|
                0 <= j < it.index() ==> is_decoded(
                    #[trigger] rows@[j],
                    Ok::<StoredLight, StoreError>(lights@[j]),
                ),
    {
        assert(row == rows@[it.index() as int]);
        match decode_light(row) {
            Ok(light) => lights.push(light),
            Err(err) => {
                assert(is_decoded(
                    rows@[it.index() as int],
                    Err::<StoredLight, StoreError>(err),
                ));
                return Err(err);
            },
        }
    }
    Ok(lights)
}

/// The columns of a row that joins a group with one of its members, each as the database gave it.
/// A group without members has one row, with no member in it.
pub struct GroupRow {
    pub id: Result<i64, sqlx::Error>,
    pub name: Result<String, sqlx::Error>,
    pub lifx_id: Result<Option<String>, sqlx::Error>,
}

/// What is wrong with a row.
pub ghost enum RowFault {
    /// A column could not be read.
    Column(sqlx::Error),
    /// A member's identifier is not one.
    Identifier(Seq<char>),
}

/// The identifiers of the groups, in the order in which they first appear.
pub open spec fn group_ids(rows: Seq<GroupRow>) -> Seq<i64>
    decreases rows.len(),
{
    if rows.len() == 0 {
        Seq::empty()
    } else {
        let before = group_ids(rows.drop_last());
        match rows.last().id {
            Ok(id) if !before.contains(id) => before.push(id),
            _ => before,
        }
    }
}

/// The name in the first row of a group.
pub open spec fn group_name(rows: Seq<GroupRow>, id: i64) -> Seq<char>
    decreases rows.len(),
{
    if rows.len() == 0 {
        Seq::empty()
    } else if group_ids(rows.drop_last()).contains(id) {
        group_name(rows.drop_last(), id)
    } else {
        match rows.last().name {
            Ok(name) => name@,
            Err(_) => Seq::empty(),
        }
    }
}

/// The members in the rows of a group, in the order of the rows.
pub open spec fn group_members(rows: Seq<GroupRow>, id: i64) -> Seq<LifxId>
    decreases rows.len(),
{
    if rows.len() == 0 {
        Seq::empty()
    } else {
        let before = group_members(rows.drop_last(), id);
        match (rows.last().id, rows.last().lifx_id) {
            (Ok(row_id), Ok(Some(text))) if row_id == id => match parsed_u64(text@, 16) {
                Some(member) => before.push(member),
                None => before,
            },
            _ => before,
        }
    }
}

/// What is wrong with a row, given the groups met before it: the name is read only in a group's
/// first row.
pub open spec fn row_fault(row: GroupRow, met: Seq<i64>) -> Option<RowFault> {
    match row.id {
        Err(err) => Some(RowFault::Column(err)),
        Ok(id) => match (row.name, row.lifx_id) {
            (Err(err), _) if !met.contains(id) => Some(RowFault::Column(err)),
            (_, Err(err)) => Some(RowFault::Column(err)),
            (_, Ok(Some(text))) if parsed_u64(text@, 16) is None => Some(
                RowFault::Identifier(text@),
            ),
            _ => None,
        },
    }
}

/// The first thing that is wrong with the rows.
pub open spec fn first_fault(rows: Seq<GroupRow>) -> Option<RowFault>
    decreases rows.len(),
{
    if rows.len() == 0 {
        None
    } else {
        match first_fault(rows.drop_last()) {
            Some(fault) => Some(fault),
            None => row_fault(rows.last(), group_ids(rows.drop_last())),
        }
    }
}

/// The groups that the rows describe.
pub open spec fn groups_in(rows: Seq<GroupRow>) -> Seq<GroupModel> {
    group_ids(rows).map_values(
        |id: i64|
            GroupModel { id, name: group_name(rows, id), member_ids: group_members(rows, id) },
    )
}

/// No group is described twice.
pub proof fn groups_are_distinct(rows: Seq<GroupRow>)
    ensures
        group_ids(rows).no_duplicates(),
    decreases rows.len(),
{
    if rows.len() > 0 {
        let before = group_ids(rows.drop_last());
        groups_are_distinct(rows.drop_last());
        if let Ok(id) = rows.last().id {
            if !before.contains(id) {
                assert(forall|k: int|
                    0 <= k < before.len() ==> before.contains(#[trigger] before[k]));
            }
        }
    }
}

proof fn faults_persist(rows: Seq<GroupRow>, i: int)
    requires
        0 <= i <= rows.len(),
        first_fault(rows.take(i)) is Some,
    ensures
        first_fault(rows) == first_fault(rows.take(i)),
    decreases rows.len(),
{
    if i == rows.len() {
        assert(rows.take(i) =~= rows);
    } else {
        assert(rows.drop_last().take(i) =~= rows.take(i));
        faults_persist(rows.drop_last(), i);
    }
}

/// Gathers the rows of groups and their members into groups, in the order in which the groups
/// first appear; the first bad row decides the error.
pub fn load_groups(rows: Vec<GroupRow>) -> (r: Result<Vec<StoredGroup>, StoreError>)
    ensures
        match first_fault(rows@) {
            None => {
                &&& r matches Ok(groups)
                &&& groups@.map_values(|group: StoredGroup| group@) == groups_in(rows@)
            },
            Some(RowFault::Column(err)) => r == Err::<Vec<StoredGroup>, StoreError>(
                StoreError::Sqlx(err),
            ),
            Some(RowFault::Identifier(text)) => {
                &&& r matches Err(StoreError::InvalidLifxId(value))
                &&& value@ == text
            },
        },
{
    let mut groups: Vec<StoredGroup> = Vec::new();
    let mut positions: HashMap<i64, usize> = HashMap::new();
    assert(rows@.take(0) =~= Seq::empty());
    for row in it: rows
        invariant
            it.seq() == rows@,
            first_fault(rows@.take(it.index() as int)) is None,
            gathered(rows@.take(it.index() as int), groups@),
            filed_at(group_ids(rows@.take(it.index() as int)), positions@),
    {
        let ghost i = it.index() as int;
        let ghost before = rows@.take(i);
        let ghost after = rows@.take(i + 1);
        let ghost met = group_ids(before);
        assert(after.drop_last() =~= before);
        assert(after.last() == row);
        proof {
            groups_are_distinct(before);
            if first_fault(after) is Some {
                faults_persist(rows@, i + 1);
            }
        }
        let group_id: i64 = match row.id {
            Ok(id) => id,
            Err(err) => return Err(StoreError::Sqlx(err)),
        };
        let index: usize = match positions.get(&group_id) {
            Some(index) => {
                assert(met.contains(group_id));
                *index
            },
            None => {
                assert(!met.contains(group_id));
                let index: usize = groups.len();
                let name = match row.name {
                    Ok(name) => name,
                    Err(err) => return Err(StoreError::Sqlx(err)),
                };
                let member_ids: Vec<LifxId> = Vec::new();
                proof {
                    no_members_yet(before, group_id);
                    assert(member_ids@ =~= group_members(before, group_id));
                }
                groups.push(StoredGroup { id: group_id, name, member_ids });
                positions.insert(group_id, index);
                index
            },
        };
        let ghost ids = group_ids(after);
        assert(ids[index as int] == group_id);
        assert forall|id: i64| #[trigger] positions@.contains_key(id) <==> ids.contains(id) by {
            if met.contains(id) {
                let k = choose|k: int| 0 <= k < met.len() && met[k] == id;
                assert(ids[k] == id);
            }
            if ids.contains(id) {
                let k = choose|k: int| 0 <= k < ids.len() && ids[k] == id;
                assert(k < met.len() ==> met[k] == id);
            }
        }
        assert forall|k: int| 0 <= k < ids.len() implies positions@[#[trigger] ids[k]] == k by {
            if k < met.len() {
                assert(met.contains(met[k]));
                assert(positions@[met[k]] == k);
            }
        }
        match row.lifx_id {
            Err(err) => return Err(StoreError::Sqlx(err)),
            Ok(None) => {},
            Ok(Some(lifx_id)) => match parse_lifx_id(lifx_id.as_str()) {
                Err(err) => return Err(err),
                Ok(member) => groups[index].member_ids.push(member),
            },
        }
        assert forall|k: int| 0 <= k < ids.len() implies #[trigger] groups@[k]@ == (GroupModel {
            id: ids[k],
            name: group_name(after, ids[k]),
            member_ids: group_members(after, ids[k]),
        }) by {
            if k < met.len() {
                assert(met.contains(met[k]));
            }
            assert(groups@[k]@.member_ids =~= group_members(after, ids[k]));
        }
    }
    assert(rows@.take(rows@.len() as int) =~= rows@);
    assert(groups@.map_values(|group: StoredGroup| group@) =~= groups_in(rows@));
    Ok(groups)
}

spec fn gathered(rows: Seq<GroupRow>, groups: Seq<StoredGroup>) -> bool {
    let ids = group_ids(rows);
    &&& groups.len() == ids.len()
    &&& forall|k: int|
        0 <= k < ids.len() ==> (#[trigger] groups[k])@ == (GroupModel {
            id: ids[k],
            name: group_name(rows, ids[k]),
            member_ids: group_members(rows, ids[k]),
        })
}

spec fn filed_at(ids: Seq<i64>, positions: Map<i64, usize>) -> bool {
    &&& forall|id: i64| #[trigger] positions.contains_key(id) <==> ids.contains(id)
    &&& forall|k: int|
        0 <= k < ids.len() ==> positions[#[trigger] ids[k]] == k
}

proof fn no_members_yet(rows: Seq<GroupRow>, id: i64)
    requires
        !group_ids(rows).contains(id),
    ensures
        group_members(rows, id) == Seq::<LifxId>::empty(),
    decreases rows.len(),
{
    if rows.len() > 0 {
        let before = group_ids(rows.drop_last());
        if let Ok(row_id) = rows.last().id {
            if !before.contains(row_id) {
                assert(before.push(row_id)[before.len() as int] == row_id);
                if before.contains(id) {
                    let k = choose|k: int| 0 <= k < before.len() && before[k] == id;
                    assert(before.push(row_id)[k] == id);
                }
            }
        }
        no_members_yet(rows.drop_last(), id);
    }
}

/// A light reads back as it was written: from columns that hold its identifier and its mode as
/// they are stored, and the rest of it, exactly that light is decoded.
pub proof fn stored_light_reads_back(
    light: StoredLight,
    row: LightRow,
    r: Result<StoredLight, StoreError>,
)
    requires
        row.lifx_id matches Ok(text) && text@ == hex_text(light.id as int, 16),
        row.mode matches Ok(text) && text@ == mode_name(light.mode),
        row.device_label == Ok::<Option<String>, sqlx::Error>(light.device_label),
        row.friendly_name == Ok::<Option<String>, sqlx::Error>(light.friendly_name),
        row.control_enabled == Ok::<bool, sqlx::Error>(light.control_enabled),
        is_decoded(row, r),
    ensures
        r == Ok::<StoredLight, StoreError>(light),
{
    stored_id_reads_back(light.id);
    mode_name_reads_back(light.mode);
}

} // verus!
