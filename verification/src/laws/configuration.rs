//! Laws on what is configured: settings from the environment, and rows of the store.
use vstd::prelude::*;

#[allow(unused_imports)]
use crate::config::{ids_in_pieces, Config, EnvVar, Environment};
#[allow(unused_imports)]
use crate::device::LifxId;
#[allow(unused_imports)]
use crate::registry::{mode_name, mode_named, LightMode};
#[allow(unused_imports)]
use crate::schedule::{clock_reading, zone_exists};
#[allow(unused_imports)]
use crate::store::{
    are_decoded, decodes, first_fault, group_ids, group_members, group_name, groups_in, is_decoded,
    is_friendly_name_error, is_group_name_error, GroupRow, LightRow, StoreError, StoredLight,
};
#[allow(unused_imports)]
use crate::text::{comma_pieces, comma_pieces_nonempty, parsed_u64, trimmed, without_hex_prefix};

verus! {

/// Pieces with commas between them.
pub open spec fn joined(pieces: Seq<Seq<char>>) -> Seq<char>
    decreases pieces.len(),
{
    if pieces.len() == 0 {
        Seq::empty()
    } else if pieces.len() == 1 {
        pieces[0]
    } else {
        joined(pieces.drop_last()) + seq![','] + pieces.last()
    }
}

/// A text is parted at its commas and nowhere else: the pieces hold none, and with commas between
/// them they are the text again.
pub proof fn texts_are_parted_at_commas(s: Seq<char>, i: int)
    ensures
        comma_pieces(s).len() > 0,
        joined(comma_pieces(s)) == s,
        0 <= i < comma_pieces(s).len() ==> !comma_pieces(s)[i].contains(','),
    decreases s.len(),
{
    comma_pieces_nonempty(s);
    let pieces = comma_pieces(s);
    if s.len() == 0 {
        assert(pieces[0] == s);
        assert(joined(pieces) =~= s);
    } else {
        let rest = s.drop_last();
        let before = comma_pieces(rest);
        comma_pieces_nonempty(rest);
        texts_are_parted_at_commas(rest, i);
        texts_are_parted_at_commas(rest, before.len() - 1);
        if s.last() == ',' {
            assert(pieces.drop_last() =~= before);
            assert(joined(pieces) =~= s);
        } else {
            let longer = before.last().push(s.last());
            assert(pieces.last() == longer);
            if before.len() == 1 {
                assert(pieces.len() == 1);
                assert(joined(before) == before[0]);
                assert(joined(pieces) =~= s);
            } else {
                assert(pieces.drop_last() =~= before.drop_last());
                assert(joined(pieces) =~= joined(before).push(s.last()));
                assert(joined(pieces) =~= s);
            }
            if i == before.len() - 1 {
                assert forall|k: int| 0 <= k < longer.len() implies longer[k] != ',' by {
                    if k < before.last().len() {
                        if before.last()[k] == ',' {
                            assert(before.last().contains(','));
                        }
                    }
                }
            }
        }
    }
}

/// How many of the first `k` pieces are not blank.
pub open spec fn filled_before(pieces: Seq<Seq<char>>, k: int) -> nat
    decreases k,
{
    if k <= 0 {
        0
    } else {
        filled_before(pieces, k - 1) + if trimmed(pieces[k - 1]).len() > 0 {
            1nat
        } else {
            0
        }
    }
}

proof fn filled_before_of_prefix(pieces: Seq<Seq<char>>, k: int)
    requires
        0 <= k < pieces.len(),
    ensures
        filled_before(pieces.drop_last(), k) == filled_before(pieces, k),
    decreases k,
{
    if k > 0 {
        filled_before_of_prefix(pieces, k - 1);
    }
}

proof fn filled_before_grows(pieces: Seq<Seq<char>>, j: int, k: int)
    requires
        0 <= j <= k <= pieces.len(),
    ensures
        filled_before(pieces, j) <= filled_before(pieces, k),
        j < k && trimmed(pieces[j]).len() > 0 ==> filled_before(pieces, j) < filled_before(
            pieces,
            k,
        ),
    decreases k,
{
    if j < k {
        filled_before_grows(pieces, j, k - 1);
    }
}

/// A list of identifiers holds one for each piece that is not blank, in their order: the number
/// that the trimmed piece denotes, with or without `0x`. It is refused just where some piece that
/// is not blank denotes none.
pub proof fn listed_identifiers_are_the_pieces(pieces: Seq<Seq<char>>, k: int)
    requires
        0 <= k < pieces.len(),
    ensures
        ids_in_pieces(pieces) matches Ok(ids) ==> {
            &&& ids.len() == filled_before(pieces, pieces.len() as int)
            &&& trimmed(pieces[k]).len() > 0 ==> {
                &&& filled_before(pieces, k) < ids.len()
                &&& parsed_u64(without_hex_prefix(trimmed(pieces[k])), 16) == Some(
                    ids[filled_before(pieces, k) as int],
                )
            }
        },
        ids_in_pieces(pieces) is Err ==> exists|i: int|
            0 <= i < pieces.len() && trimmed(#[trigger] pieces[i]).len() > 0 && parsed_u64(
                without_hex_prefix(trimmed(pieces[i])),
                16,
            ) is None,
    decreases pieces.len(),
{
    let fewer = pieces.drop_last();
    filled_before_of_prefix(pieces, fewer.len() as int);
    filled_before_grows(pieces, k, fewer.len() as int);
    if fewer.len() > 0 {
        let inner = if k < fewer.len() {
            k
        } else {
            0
        };
        listed_identifiers_are_the_pieces(fewer, inner);
        filled_before_of_prefix(pieces, inner);
        if ids_in_pieces(fewer) is Err {
            let i = choose|i: int|
                0 <= i < fewer.len() && trimmed(#[trigger] fewer[i]).len() > 0 && parsed_u64(
                    without_hex_prefix(trimmed(fewer[i])),
                    16,
                ) is None;
            assert(pieces[i] == fewer[i]);
        }
    } else {
        assert(ids_in_pieces(fewer) is Ok);
    }
    if ids_in_pieces(pieces) is Err && ids_in_pieces(fewer) is Ok {
        assert(pieces[pieces.len() - 1] == pieces.last());
    }
}

/// A number of seconds that a variable gives: what it holds, or the default where it is absent.
pub open spec fn gives_seconds(var: EnvVar, default: u64, nanos: nat) -> bool {
    match var {
        EnvVar::Value(value) => parsed_u64(value@, 10) is Some && nanos == parsed_u64(value@, 10)->0
            * 1_000_000_000,
        EnvVar::NotPresent => nanos == default * 1_000_000_000,
        EnvVar::NotUnicode(_) => false,
    }
}

/// The settings are what the variables hold, and the defaults of those that are absent.
pub proof fn settings_follow_the_variables(config: Config, env: Environment)
    requires
        config.holds(env),
    ensures
        env.bind is Address && config.bind_addr@ == env.bind->Address_0@,
        env.lifx_broadcast is Address && config.lifx_broadcast_addr@
            == env.lifx_broadcast->Address_0@,
        env.http_bind is Address && config.http_bind_addr@ == env.http_bind->Address_0@,
        env.database_url is Value && config.database_url@ == env.database_url->Value_0@,
        trimmed(config.database_url@).len() > 0,
        env.controlled_ids is Value,
        ids_in_pieces(comma_pieces(env.controlled_ids->Value_0@)) == Ok::<Seq<LifxId>, Seq<char>>(
            config.initial_test_ids@,
        ),
        config.initial_test_ids@.len() > 0,
        gives_seconds(env.discovery_interval_secs, 60, config.discovery_interval@),
        gives_seconds(env.state_poll_interval_secs, 10, config.state_poll_interval@),
        gives_seconds(env.color_interval_secs, 600, config.color_interval@),
        gives_seconds(env.transition_secs, 5, config.transition@),
        zone_exists(config.timezone.text()),
        env.timezone is Value ==> config.timezone.text() == env.timezone->Value_0@,
        !(env.timezone is Value) ==> config.timezone.text() == "America/New_York"@,
        env.off_time is Value ==> clock_reading(env.off_time->Value_0@) is Ok
            && config.off_time.secs() == clock_reading(env.off_time->Value_0@)->Ok_0,
        !(env.off_time is Value) ==> clock_reading("02:00"@) is Ok && config.off_time.secs()
            == clock_reading("02:00"@)->Ok_0,
        env.on_time is Value ==> clock_reading(env.on_time->Value_0@) is Ok && config.on_time.secs()
            == clock_reading(env.on_time->Value_0@)->Ok_0,
        !(env.on_time is Value) ==> clock_reading("10:00"@) is Ok && config.on_time.secs()
            == clock_reading("10:00"@)->Ok_0,
        config.off_time.nanos() == 0,
        config.on_time.nanos() == 0,
{
}

pub open spec fn is_number(var: EnvVar) -> bool {
    match var {
        EnvVar::Value(value) => parsed_u64(value@, 10) is Some,
        EnvVar::NotPresent => true,
        EnvVar::NotUnicode(_) => false,
    }
}

pub open spec fn is_zero(var: EnvVar) -> bool {
    var is Value && parsed_u64(var->Value_0@, 10) == Some(0u64)
}

pub open spec fn text_or(var: EnvVar, default: Seq<char>) -> Seq<char> {
    if var is Value {
        var->Value_0@
    } else {
        default
    }
}

/// Whether a list of identifiers is there, holds nothing else, and is not empty.
pub open spec fn is_id_list(var: EnvVar) -> bool {
    &&& var is Value
    &&& ids_in_pieces(comma_pieces(var->Value_0@)) is Ok
    &&& ids_in_pieces(comma_pieces(var->Value_0@))->Ok_0.len() > 0
}

/// The settings are refused just where a variable is: an address that is missing or none, a
/// database that is missing or blank, a list that is missing, empty or holds what is no identifier,
/// a number, zone or time that cannot be read, or an interval of zero.
pub proof fn settings_are_refused_where_a_variable_is(env: Environment)
    ensures
        env.complaint() is None <==> {
            &&& env.bind is Address
            &&& env.lifx_broadcast is Address
            &&& env.http_bind is Address
            &&& env.database_url is Value && trimmed(env.database_url->Value_0@).len() > 0
            &&& is_id_list(env.controlled_ids)
            &&& is_number(env.discovery_interval_secs) && !is_zero(env.discovery_interval_secs)
            &&& is_number(env.state_poll_interval_secs) && !is_zero(env.state_poll_interval_secs)
            &&& is_number(env.color_interval_secs) && !is_zero(env.color_interval_secs)
            &&& is_number(env.transition_secs)
            &&& zone_exists(text_or(env.timezone, "America/New_York"@))
            &&& clock_reading(text_or(env.off_time, "02:00"@)) is Ok
            &&& clock_reading(text_or(env.on_time, "10:00"@)) is Ok
        },
{
}

/// The first variable that is refused decides the complaint, whatever the later ones hold.
pub proof fn first_refused_variable_decides(a: Environment, b: Environment)
    ensures
        a.bind == b.bind && !(a.bind is Address) ==> a.complaint() == b.complaint(),
        a.bind is Address && b.bind is Address ==> {
            &&& a.lifx_broadcast == b.lifx_broadcast && !(a.lifx_broadcast is Address)
                ==> a.complaint() == b.complaint()
            &&& a.lifx_broadcast is Address && b.lifx_broadcast is Address ==> {
                &&& a.http_bind == b.http_bind && !(a.http_bind is Address) ==> a.complaint()
                    == b.complaint()
                &&& a.http_bind is Address && b.http_bind is Address ==> {
                    &&& a.database_url == b.database_url && !(a.database_url is Value && trimmed(
                        a.database_url->Value_0@,
                    ).len() > 0) ==> a.complaint() == b.complaint()
                }
            }
        },
{
}

/// Modes are stored under their names, letter by letter.
pub proof fn modes_are_stored_by_name()
    ensures
        mode_name(LightMode::Test) == seq!['t', 'e', 's', 't'],
        mode_name(LightMode::Custom) == seq!['c', 'u', 's', 't', 'o', 'm'],
        forall|name: Seq<char>| #[trigger]
            mode_named(name) == Some(LightMode::Test) <==> name == seq!['t', 'e', 's', 't'],
        forall|name: Seq<char>| #[trigger]
            mode_named(name) == Some(LightMode::Custom) <==> name == seq![
                'c',
                'u',
                's',
                't',
                'o',
                'm',
            ],
{
    reveal_strlit("test");
    reveal_strlit("custom");
    assert("test"@ =~= seq!['t', 'e', 's', 't']);
    assert("custom"@ =~= seq!['c', 'u', 's', 't', 'o', 'm']);
    assert("test"@.len() != "custom"@.len());
}

/// A row is decoded just where each of its columns can be read and the identifier and the mode mean
/// something; then the light is what the columns say.
pub proof fn rows_are_decoded_column_by_column(row: LightRow, r: Result<StoredLight, StoreError>)
    requires
        is_decoded(row, r),
    ensures
        r is Ok <==> {
            &&& row.lifx_id is Ok && parsed_u64(row.lifx_id->Ok_0@, 16) is Some
            &&& row.mode is Ok && mode_named(row.mode->Ok_0@) is Some
            &&& row.device_label is Ok
            &&& row.friendly_name is Ok
            &&& row.control_enabled is Ok
        },
        r is Ok ==> {
            let light = r->Ok_0;
            &&& parsed_u64(row.lifx_id->Ok_0@, 16) == Some(light.id)
            &&& mode_named(row.mode->Ok_0@) == Some(light.mode)
            &&& row.device_label->Ok_0 == light.device_label
            &&& row.friendly_name->Ok_0 == light.friendly_name
            &&& row.control_enabled->Ok_0 == light.control_enabled
        },
        row.lifx_id matches Err(err) ==> r == Err::<StoredLight, StoreError>(StoreError::Sqlx(err)),
        row.lifx_id is Ok && row.mode is Err ==> r == Err::<StoredLight, StoreError>(
            StoreError::Sqlx(row.mode->Err_0),
        ),
{
}

/// Rows are decoded all or none: each light is its own row's, and an error is that of the first row
/// that has one.
pub proof fn rows_are_decoded_in_order(
    rows: Seq<LightRow>,
    r: Result<Vec<StoredLight>, StoreError>,
    i: int,
)
    requires
        are_decoded(rows, r),
    ensures
        r matches Ok(lights) ==> lights@.len() == rows.len(),
        r is Ok && 0 <= i < rows.len() ==> is_decoded(
            rows[i],
            Ok::<StoredLight, StoreError>(r->Ok_0@[i]),
        ),
        r is Err ==> exists|k: int|
            {
                &&& 0 <= k < rows.len()
                &&& is_decoded(#[trigger] rows[k], Err::<StoredLight, StoreError>(r->Err_0))
                &&& forall|j: int| 0 <= j < k ==> decodes(#[trigger] rows[j])
            },
{
}

/// A group is there just where some row is its own.
pub proof fn groups_appear_with_their_rows(rows: Seq<GroupRow>, id: i64)
    ensures
        group_ids(rows).contains(id) <==> exists|i: int|
            0 <= i < rows.len() && (#[trigger] rows[i]).id == Ok::<i64, sqlx::Error>(id),
    decreases rows.len(),
{
    if rows.len() == 0 {
        assert(!group_ids(rows).contains(id));
    } else {
        let fewer = rows.drop_last();
        let before = group_ids(fewer);
        let after = group_ids(rows);
        groups_appear_with_their_rows(fewer, id);
        if before.contains(id) {
            let k = choose|k: int| 0 <= k < before.len() && before[k] == id;
            assert(after[k] == id);
            let i = choose|i: int|
                0 <= i < fewer.len() && (#[trigger] fewer[i]).id == Ok::<i64, sqlx::Error>(id);
            assert(rows[i] == fewer[i]);
        }
        if rows.last().id == Ok::<i64, sqlx::Error>(id) {
            assert(rows[rows.len() - 1] == rows.last());
            if !before.contains(id) {
                assert(after[before.len() as int] == id);
            }
        }
        if after.contains(id) && !before.contains(id) {
            let k = choose|k: int| 0 <= k < after.len() && after[k] == id;
            if k < before.len() {
                assert(before[k] == id);
            }
        }
        if exists|i: int|
            0 <= i < rows.len() && (#[trigger] rows[i]).id == Ok::<i64, sqlx::Error>(id) {
            let i = choose|i: int|
                0 <= i < rows.len() && (#[trigger] rows[i]).id == Ok::<i64, sqlx::Error>(id);
            if i < fewer.len() {
                assert(fewer[i] == rows[i]);
            }
        }
    }
}

/// Before a row of a group that stands later, there is one of every group that stands earlier.
pub proof fn groups_stand_in_order_of_rows(rows: Seq<GroupRow>, p: int, q: int, j: int)
    requires
        0 <= p < q < group_ids(rows).len(),
        0 <= j < rows.len(),
        rows[j].id == Ok::<i64, sqlx::Error>(group_ids(rows)[q]),
    ensures
        exists|i: int|
            0 <= i < j && (#[trigger] rows[i]).id == Ok::<i64, sqlx::Error>(group_ids(rows)[p]),
    decreases rows.len(),
{
    let fewer = rows.drop_last();
    let before = group_ids(fewer);
    let a = group_ids(rows)[p];
    if q < before.len() {
        if j < fewer.len() {
            assert(fewer[j] == rows[j]);
            groups_stand_in_order_of_rows(fewer, p, q, j);
            let i = choose|i: int|
                0 <= i < j && (#[trigger] fewer[i]).id == Ok::<i64, sqlx::Error>(a);
            assert(rows[i] == fewer[i]);
        } else {
            assert(before[p] == a);
            assert(before.contains(a));
            groups_appear_with_their_rows(fewer, a);
            let i = choose|i: int|
                0 <= i < fewer.len() && (#[trigger] fewer[i]).id == Ok::<i64, sqlx::Error>(a);
            assert(rows[i] == fewer[i]);
        }
    } else {
        let b = group_ids(rows)[q];
        assert(!before.contains(b));
        groups_appear_with_their_rows(fewer, b);
        if j < fewer.len() {
            assert(fewer[j] == rows[j]);
        }
        assert(before[p] == a);
        assert(before.contains(a));
        groups_appear_with_their_rows(fewer, a);
        let i = choose|i: int|
            0 <= i < fewer.len() && (#[trigger] fewer[i]).id == Ok::<i64, sqlx::Error>(a);
        assert(rows[i] == fewer[i]);
    }
}

/// A group is named as its first row says.
pub proof fn groups_are_named_by_their_first_row(rows: Seq<GroupRow>, i: int, id: i64)
    requires
        0 <= i < rows.len(),
        rows[i].id == Ok::<i64, sqlx::Error>(id),
        rows[i].name is Ok,
        forall|j: int| 0 <= j < i ==> (#[trigger] rows[j]).id != Ok::<i64, sqlx::Error>(id),
    ensures
        group_name(rows, id) == rows[i].name->Ok_0@,
    decreases rows.len(),
{
    let fewer = rows.drop_last();
    groups_appear_with_their_rows(fewer, id);
    if i < fewer.len() {
        assert(fewer[i] == rows[i]);
        assert forall|j: int| 0 <= j < i implies (#[trigger] fewer[j]).id != Ok::<
            i64,
            sqlx::Error,
        >(id) by {
            assert(fewer[j] == rows[j]);
        }
        groups_are_named_by_their_first_row(fewer, i, id);
    } else if group_ids(fewer).contains(id) {
        let j = choose|j: int|
            0 <= j < fewer.len() && (#[trigger] fewer[j]).id == Ok::<i64, sqlx::Error>(id);
        assert(rows[j] == fewer[j]);
    }
}

/// Whether a row names a member of a group.
pub open spec fn names_member(row: GroupRow, id: i64) -> bool {
    &&& row.id == Ok::<i64, sqlx::Error>(id)
    &&& row.lifx_id is Ok
    &&& row.lifx_id->Ok_0 is Some
    &&& parsed_u64(row.lifx_id->Ok_0->0@, 16) is Some
}

/// How many of the first `k` rows name a member of a group.
pub open spec fn members_before(rows: Seq<GroupRow>, id: i64, k: int) -> nat
    decreases k,
{
    if k <= 0 {
        0
    } else {
        members_before(rows, id, k - 1) + if names_member(rows[k - 1], id) {
            1nat
        } else {
            0
        }
    }
}

proof fn members_before_of_prefix(rows: Seq<GroupRow>, id: i64, k: int)
    requires
        0 <= k < rows.len(),
    ensures
        members_before(rows.drop_last(), id, k) == members_before(rows, id, k),
    decreases k,
{
    if k > 0 {
        members_before_of_prefix(rows, id, k - 1);
    }
}

proof fn members_before_grows(rows: Seq<GroupRow>, id: i64, j: int, k: int)
    requires
        0 <= j <= k <= rows.len(),
    ensures
        members_before(rows, id, j) <= members_before(rows, id, k),
        j < k && names_member(rows[j], id) ==> members_before(rows, id, j) < members_before(
            rows,
            id,
            k,
        ),
    decreases k,
{
    if j < k {
        members_before_grows(rows, id, j, k - 1);
    }
}

/// The members of a group are those that its rows name, one for each, in the order of the rows.
pub proof fn members_are_those_of_the_rows(rows: Seq<GroupRow>, id: i64, k: int)
    requires
        0 <= k < rows.len(),
    ensures
        group_members(rows, id).len() == members_before(rows, id, rows.len() as int),
        names_member(rows[k], id) ==> {
            let place = members_before(rows, id, k) as int;
            &&& place < group_members(rows, id).len()
            &&& parsed_u64(rows[k].lifx_id->Ok_0->0@, 16) == Some(group_members(rows, id)[place])
        },
    decreases rows.len(),
{
    let fewer = rows.drop_last();
    members_before_of_prefix(rows, id, fewer.len() as int);
    members_before_grows(rows, id, k, fewer.len() as int);
    if fewer.len() > 0 {
        let inner = if k < fewer.len() {
            k
        } else {
            0
        };
        members_are_those_of_the_rows(fewer, id, inner);
        members_before_of_prefix(rows, id, inner);
    } else {
        assert(group_members(fewer, id).len() == 0);
    }
}

/// Rows are taken just where each of them can be read: its group, its member if it names one, and
/// the name where it is the first of its group. The groups are then those of the rows.
pub proof fn group_rows_are_taken_where_readable(rows: Seq<GroupRow>, i: int)
    requires
        first_fault(rows) is None,
        0 <= i < rows.len(),
    ensures
        rows[i].id is Ok,
        rows[i].lifx_id is Ok,
        rows[i].lifx_id->Ok_0 is Some ==> parsed_u64(rows[i].lifx_id->Ok_0->0@, 16) is Some,
        (forall|j: int| 0 <= j < i ==> (#[trigger] rows[j]).id != rows[i].id) ==> rows[i].name is Ok,
        groups_in(rows).len() == group_ids(rows).len(),
    decreases rows.len(),
{
    let fewer = rows.drop_last();
    if i < fewer.len() {
        group_rows_are_taken_where_readable(fewer, i);
        assert(fewer[i] == rows[i]);
        if forall|j: int| 0 <= j < i ==> (#[trigger] rows[j]).id != rows[i].id {
            assert forall|j: int| 0 <= j < i implies (#[trigger] fewer[j]).id != fewer[i].id by {
                assert(fewer[j] == rows[j]);
            }
        }
    } else {
        let row = rows.last();
        if row.id is Ok {
            groups_appear_with_their_rows(fewer, row.id->Ok_0);
            if group_ids(fewer).contains(row.id->Ok_0) {
                let j = choose|j: int|
                    0 <= j < fewer.len() && (#[trigger] fewer[j]).id == Ok::<i64, sqlx::Error>(
                        row.id->Ok_0,
                    );
                assert(rows[j].id == rows[i].id);
            }
        }
    }
}

/// Rows that can each be read are taken, and the groups are those of the rows.
pub proof fn readable_group_rows_are_taken(rows: Seq<GroupRow>, g: int)
    requires
        forall|i: int|
            0 <= i < rows.len() ==> {
                let row = #[trigger] rows[i];
                &&& row.id is Ok
                &&& row.name is Ok
                &&& row.lifx_id is Ok
                &&& row.lifx_id->Ok_0 is Some ==> parsed_u64(row.lifx_id->Ok_0->0@, 16) is Some
            },
    ensures
        first_fault(rows) is None,
        0 <= g < groups_in(rows).len() ==> {
            let group = groups_in(rows)[g];
            &&& group.id == group_ids(rows)[g]
            &&& group.name == group_name(rows, group.id)
            &&& group.member_ids == group_members(rows, group.id)
        },
    decreases rows.len(),
{
    if rows.len() > 0 {
        let fewer = rows.drop_last();
        assert forall|i: int| 0 <= i < fewer.len() implies {
            let row = #[trigger] fewer[i];
            &&& row.id is Ok
            &&& row.name is Ok
            &&& row.lifx_id is Ok
            &&& row.lifx_id->Ok_0 is Some ==> parsed_u64(row.lifx_id->Ok_0->0@, 16) is Some
        } by {
            assert(fewer[i] == rows[i]);
        }
        readable_group_rows_are_taken(fewer, g);
        assert(rows[rows.len() - 1] == rows.last());
    }
}

/// A name that is taken and a name that is not acceptable are told apart by the code that the
/// database gives, and any other failure is passed on as it is.
pub proof fn name_errors_go_by_the_code(
    light: StoreError,
    group: StoreError,
    err: sqlx::Error,
    code: Option<Seq<char>>,
    name: Seq<char>,
)
    requires
        is_friendly_name_error(light, err, code, name),
        is_group_name_error(group, err, code, name),
    ensures
        light is FriendlyNameConflict <==> code == Some("23505"@),
        group is GroupNameConflict <==> code == Some("23505"@),
        light is InvalidFriendlyName <==> code == Some("23514"@),
        group is InvalidGroupName <==> code == Some("23514"@),
        code != Some("23505"@) && code != Some("23514"@) ==> light == StoreError::Sqlx(err) && group
            == StoreError::Sqlx(err),
        light is FriendlyNameConflict ==> light->FriendlyNameConflict_0@ == name,
        group is GroupNameConflict ==> group->GroupNameConflict_0@ == name,
        light is InvalidFriendlyName ==> light->InvalidFriendlyName_0@ == name,
        group is InvalidGroupName ==> group->InvalidGroupName_0@ == name,
{
    reveal_strlit("23505");
    reveal_strlit("23514");
    assert("23505"@[3] != "23514"@[3]);
}

} // verus!
