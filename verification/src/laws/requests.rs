//! Laws on requests: which names and identifiers are accepted, what a change of configuration asks
//! for step by step, and how a discovered device is taken in.
use vstd::prelude::*;

#[allow(unused_imports)]
use crate::clock::Instant;
#[allow(unused_imports)]
use crate::controller::ControllerModel;
#[allow(unused_imports)]
use crate::device::LifxId;
#[allow(unused_imports)]
use crate::discovery::{read_or_known, AwaitLabelRecord, RefreshStep, Sighting};
#[allow(unused_imports)]
use crate::manage::{
    are_stored, group_update_complaint, is_first_unknown, is_members_step, label_after_enabling,
    label_after_rename, requested_ids, update_complaint, AfterLabel, AwaitControl, AwaitName,
    GroupStep, ManagedUpdate, UpdateGroupRequest, UpdateStep,
};
#[allow(unused_imports)]
use crate::order::strictly_ascending;
#[allow(unused_imports)]
use crate::registry::{LightMode, ManagedLight};
#[allow(unused_imports)]
use crate::store::{store_error_text, StoreError, StoredLight};
#[allow(unused_imports)]
use crate::test_mode::SyncTarget;
#[allow(unused_imports)]
use crate::text::{
    control, digits_value, has_control, parsed_u64, texts, trimmed, trimmed_end, trimmed_start,
    white, without_hex_prefix,
};
#[allow(unused_imports)]
use crate::web::{
    friendly_name_complaint, friendly_name_in, group_name_complaint, hue_degrees, hue_level,
    level_percent, lifx_answer, percent_level, requested_id, store_answer,
};
#[allow(unused_imports)]
use vstd::utf8::encode_utf8;

verus! {

/// Trimming takes white space off both ends and nothing else: what is left starts and ends with
/// something else, and stands in the text between what was taken off.
pub proof fn trimming_takes_white_space_off(s: Seq<char>) -> (cut: (int, int))
    ensures
        0 <= cut.0 <= cut.1 <= s.len(),
        trimmed(s) == s.subrange(cut.0, cut.1),
        forall|i: int| 0 <= i < cut.0 ==> white(#[trigger] s[i]),
        forall|i: int| cut.1 <= i < s.len() ==> white(#[trigger] s[i]),
        trimmed(s).len() > 0 ==> !white(trimmed(s)[0]) && !white(trimmed(s).last()),
{
    let from = start_of(s);
    let rest = s.subrange(from, s.len() as int);
    let to = end_of(rest);
    assert(trimmed(s) =~= s.subrange(from, from + to));
    crate::text::trimming_is_idempotent(s);
    assert forall|i: int| from + to <= i < s.len() implies white(#[trigger] s[i]) by {
        assert(rest[i - from] == s[i]);
    }
    (from, from + to)
}

proof fn start_of(s: Seq<char>) -> (from: int)
    ensures
        0 <= from <= s.len(),
        trimmed_start(s) == s.subrange(from, s.len() as int),
        forall|i: int| 0 <= i < from ==> white(#[trigger] s[i]),
    decreases s.len(),
{
    if s.len() > 0 && white(s[0]) {
        let rest = s.subrange(1, s.len() as int);
        let from = start_of(rest);
        assert(rest.subrange(from, rest.len() as int) =~= s.subrange(from + 1, s.len() as int));
        assert forall|i: int| 0 <= i < from + 1 implies white(#[trigger] s[i]) by {
            if i > 0 {
                assert(rest[i - 1] == s[i]);
            }
        }
        from + 1
    } else {
        assert(s.subrange(0, s.len() as int) =~= s);
        0
    }
}

proof fn end_of(s: Seq<char>) -> (to: int)
    ensures
        0 <= to <= s.len(),
        trimmed_end(s) == s.subrange(0, to),
        forall|i: int| to <= i < s.len() ==> white(#[trigger] s[i]),
    decreases s.len(),
{
    if s.len() > 0 && white(s.last()) {
        let rest = s.drop_last();
        let to = end_of(rest);
        assert(rest.subrange(0, to) =~= s.subrange(0, to));
        assert forall|i: int| to <= i < s.len() implies white(#[trigger] s[i]) by {
            if i < rest.len() {
                assert(rest[i] == s[i]);
            }
        }
        to
    } else {
        assert(s.subrange(0, s.len() as int) =~= s);
        s.len() as int
    }
}

/// What counts as white space and what as a control character, by number.
pub proof fn characters_are_classified(c: char)
    ensures
        ({
            let n = c as int;
            &&& control(c) <==> n < 32 || 127 <= n <= 159
            &&& white(c) <==> 9 <= n <= 13 || n == 32 || n == 133 || n == 160 || n == 5760 || 8192
                <= n <= 8202 || n == 8232 || n == 8233 || n == 8239 || n == 8287 || n == 12288
        }),
{
}

/// A group name is accepted just where something is left of it once it is trimmed, no longer than
/// 64 bytes and without a control character.
pub proof fn group_names_are_held_to_the_rules(value: Seq<char>)
    ensures
        group_name_complaint(value) is None <==> {
            let name = trimmed(value);
            &&& name.len() > 0
            &&& encode_utf8(name).len() <= 64
            &&& forall|i: int| 0 <= i < name.len() ==> !control(#[trigger] name[i])
        },
{
    let name = trimmed(value);
    if has_control(name) {
        assert(exists|i: int| 0 <= i < name.len() && control(#[trigger] name[i]));
    }
}

/// A friendly name is accepted just where it is blank, which removes the name, or where it is no
/// longer than 31 bytes once it is trimmed and holds no control character.
pub proof fn friendly_names_are_held_to_the_rules(value: Seq<char>)
    ensures
        friendly_name_complaint(value) is None <==> {
            let name = trimmed(value);
            name.len() == 0 || (encode_utf8(name).len() <= 31 && forall|i: int|
                0 <= i < name.len() ==> !control(#[trigger] name[i]))
        },
        trimmed(value).len() == 0 ==> friendly_name_in(value) is None,
        trimmed(value).len() > 0 ==> friendly_name_in(value) == Some(trimmed(value)),
{
    let name = trimmed(value);
    if has_control(name) {
        assert(exists|i: int| 0 <= i < name.len() && control(#[trigger] name[i]));
    }
}

/// An identifier may be given with `0x`, with `0X` or without; it names the same light.
pub proof fn prefix_of_identifiers_does_not_count(digits: Seq<char>)
    requires
        digits.len() < 2 || digits[0] != '0' || (digits[1] != 'x' && digits[1] != 'X'),
    ensures
        requested_id(digits) == parsed_u64(digits, 16),
        requested_id(seq!['0', 'x'] + digits) == parsed_u64(digits, 16),
        requested_id(seq!['0', 'X'] + digits) == parsed_u64(digits, 16),
{
    let low = seq!['0', 'x'] + digits;
    let high = seq!['0', 'X'] + digits;
    assert(without_hex_prefix(low) =~= digits);
    assert(without_hex_prefix(high) =~= digits);
}

/// A further digit of an identifier counts one and moves those before it up a place; a letter
/// counts the same in either case.
pub proof fn digits_count_by_place(before: Seq<char>, digit: int, c: char)
    requires
        0 <= digit < 16,
        digit < 10 ==> c as int == '0' as int + digit,
        digit >= 10 ==> c as int == 'a' as int + digit - 10 || c as int == 'A' as int + digit - 10,
    ensures
        digits_value(before, 16) is Some ==> digits_value(before.push(c), 16) == Some(
            16 * digits_value(before, 16)->0 + digit,
        ),
        digits_value(before, 16) is None ==> digits_value(before.push(c), 16) is None,
{
    let s = before.push(c);
    assert(s.drop_last() =~= before);
    assert(s.last() == c);
}

/// Levels are scaled to the nearest: of percent and degrees, and back.
pub proof fn levels_are_nearest(percent: int, degrees: int, level: int)
    requires
        0 <= percent,
        0 <= degrees,
        0 <= level <= 65_535,
    ensures
        -50 <= percent_level(percent) * 100 - percent * 65_535 <= 50,
        -180 <= hue_level(degrees) * 360 - degrees % 360 * 65_535 <= 180,
        -32_767 <= level_percent(level) * 65_535 - level * 100 <= 32_767,
        0 <= hue_degrees(level) < 360,
        (-32_767 <= hue_degrees(level) * 65_535 - level * 360 <= 32_767) || (hue_degrees(level) == 0
            && level * 360 + 32_767 >= 360 * 65_535),
{
}

/// A list of identifiers names lights just where each of them does, in the same order.
pub proof fn lists_of_identifiers_are_read_one_by_one(list: Seq<Seq<char>>, i: int)
    ensures
        requested_ids(list) matches Some(ids) ==> ids.len() == list.len(),
        requested_ids(list) is Some && 0 <= i < list.len() ==> requested_id(list[i]) == Some(
            requested_ids(list)->0[i],
        ),
        requested_ids(list) is None ==> exists|k: int|
            0 <= k < list.len() && requested_id(#[trigger] list[k]) is None,
    decreases list.len(),
{
    if list.len() > 0 {
        let fewer = list.drop_last();
        lists_of_identifiers_are_read_one_by_one(fewer, i);
        if requested_ids(list) is None {
            if requested_id(list.last()) is None {
                assert(requested_id(list[list.len() - 1]) is None);
            } else {
                let k = choose|k: int|
                    0 <= k < fewer.len() && requested_id(#[trigger] fewer[k]) is None;
                assert(requested_id(list[k]) is None);
            }
        }
    }
}

/// A membership is stored just where every text names a stored light; then each of them is a
/// member, once, in ascending order, and nothing else is.
pub proof fn members_are_the_named_lights(
    r: GroupStep,
    model: ControllerModel,
    id: i64,
    member_ids: Option<Vec<String>>,
    k: int,
)
    requires
        is_members_step(r, model, id, member_ids),
    ensures
        member_ids is None ==> r is Done,
        member_ids is Some ==> r is StoreMembers || r is Refused,
        r is StoreMembers ==> {
            let members = r->StoreMembers_0.member_ids@;
            let named = requested_ids(texts(member_ids->0@));
            &&& r->StoreMembers_0.id == id
            &&& strictly_ascending(members)
            &&& named is Some
            &&& forall|light: LifxId| members.contains(light) <==> named->0.contains(light)
            &&& 0 <= k < members.len() ==> model.stored.contains_key(members[k])
        },
        r is Refused ==> {
            let named = requested_ids(texts(member_ids->0@));
            &&& named is None ==> r->Refused_0@.status == 400
            &&& named is Some ==> r->Refused_0@.status == 503 && exists|light: LifxId|
                named->0.contains(light) && !(#[trigger] model.stored.contains_key(light))
        },
{
    if r is StoreMembers {
        let members = r->StoreMembers_0.member_ids@;
        if 0 <= k < members.len() {
            assert(members.contains(members[k]));
        }
    }
}

/// A change of a group is refused before anything is stored just where it asks for nothing, where
/// there is no such group, or where the name is not acceptable.
pub proof fn group_updates_are_held_to_the_rules(
    model: ControllerModel,
    id: i64,
    request: UpdateGroupRequest,
)
    ensures
        ({
            let complaint = group_update_complaint(model, id, request);
            &&& complaint is None <==> {
                &&& request.name is Some || request.member_ids is Some
                &&& model.groups.contains_key(id)
                &&& request.name is Some ==> group_name_complaint(request.name->0@) is None
            }
            &&& request.name is None && request.member_ids is None ==> complaint is Some
                && complaint->0.status == 400
            &&& (request.name is Some || request.member_ids is Some) && !model.groups.contains_key(
                id,
            ) ==> complaint is Some && complaint->0.status == 404
        }),
{
}

/// A change of a light's configuration is refused before anything is stored just where it names no
/// light, asks for nothing, or asks for a name that is not acceptable.
pub proof fn light_updates_are_held_to_the_rules(
    text: Seq<char>,
    name: Option<Seq<char>>,
    enabled: Option<bool>,
)
    ensures
        update_complaint(text, name, enabled) is None <==> {
            &&& requested_id(text) is Some
            &&& name is Some || enabled is Some
            &&& name is Some ==> friendly_name_complaint(name->0) is None
        },
        update_complaint(text, name, enabled) matches Some(answer) ==> answer.status == 400,
{
}

/// What follows once a name is stored: the bulb counts as behind where it has a name to carry. It
/// is written to a bulb that is known and under control.
pub proof fn stored_name_is_mirrored(waiting: AwaitName, model: ControllerModel)
    ensures
        waiting.named().id == waiting.update.id,
        waiting.named().control_enabled == waiting.update.control_enabled,
        waiting.named().test_state_synced == waiting.update.test_state_synced,
        waiting.name is Some ==> waiting.named().label_synced == Some(false),
        waiting.name is None ==> waiting.named().label_synced == waiting.update.label_synced,
        label_after_rename(model, waiting.update.id, waiting.name) <==> waiting.name is Some
            && model.lights.contains_key(waiting.update.id)
            && model.lights[waiting.update.id].control_enabled,
{
}

/// What follows a label: the rest of the request, or Test Mode's state for a light that waits for
/// it; the answer says what became of each.
pub proof fn update_goes_on_in_order(
    update: ManagedUpdate,
    light: ManagedLight,
    model: ControllerModel,
    target: SyncTarget,
)
    ensures
        update.outcome().saved,
        update.outcome().label_synced == update.label_synced,
        update.outcome().test_state_synced == update.test_state_synced,
        update.step_after(AfterLabel::Control, model, target) == update.control_step(model),
        update.control_enabled is None ==> update.control_step(model) == UpdateStep::Done(
            update.outcome(),
        ),
        update.control_enabled is Some ==> {
            &&& update.control_step(model) is StoreControl
            &&& update.control_step(model)->StoreControl_0.update == update
            &&& update.control_step(model)->StoreControl_0.control_enabled
                == update.control_enabled->0
        },
        update.step_after(AfterLabel::TestState(None), model, target) == UpdateStep::Done(
            update.outcome(),
        ),
        ({
            let step = update.step_after(AfterLabel::TestState(Some(light)), model, target);
            &&& step is Synchronize
            &&& step->Synchronize_0.update == update
            &&& step->Synchronize_0.light == light
            &&& step->Synchronize_0.target == target
        }),
{
}

/// A light that comes under control is given its name where it does not carry it, and then Test
/// Mode's state where it is in that mode; else there is nothing to do.
pub proof fn enabled_light_is_brought_up_to_date(
    waiting: AwaitControl,
    light: ManagedLight,
    target: SyncTarget,
)
    ensures
        ({
            let step = waiting.enabled_step(light, target);
            let behind = light.friendly_name is Some && (light.label is None || light.label->0@
                != light.friendly_name->0@);
            let test = light.mode == LightMode::Test;
            &&& label_after_enabling(light) <==> behind
            &&& behind ==> {
                &&& step is WriteLabel
                &&& step->WriteLabel_0.update == waiting.update
                &&& step->WriteLabel_0.device == light.device
                &&& Some(step->WriteLabel_0.label) == light.friendly_name
                &&& test ==> step->WriteLabel_0.after == AfterLabel::TestState(Some(light))
                &&& !test ==> step->WriteLabel_0.after == AfterLabel::TestState(None)
            }
            &&& !behind && test ==> {
                &&& step is Synchronize
                &&& step->Synchronize_0.update == waiting.update
                &&& step->Synchronize_0.light == light
                &&& step->Synchronize_0.target == target
            }
            &&& !behind && !test ==> step == UpdateStep::Done(waiting.update.outcome())
        }),
{
}

/// The label of a device is the one that was read, else the one it is known by, else none.
pub proof fn unread_label_is_the_known_one(
    model: ControllerModel,
    id: LifxId,
    read: Option<String>,
)
    ensures
        read is Some ==> read_or_known(model, id, read) == read,
        read is None && model.lights.contains_key(id) ==> read_or_known(model, id, read)
            == model.lights[id].label,
        read is None && !model.lights.contains_key(id) ==> read_or_known(model, id, read) is None,
{
}

/// A device is given its friendly name just where it is under control, has one, and does not carry
/// it.
pub proof fn names_are_mirrored_where_wanted(sighting: Sighting)
    ensures
        sighting.wanted_label() is Some <==> {
            &&& sighting.stored.control_enabled
            &&& sighting.stored.friendly_name is Some
            &&& sighting.label is None || sighting.label->0@ != sighting.stored.friendly_name->0@
        },
        sighting.wanted_label() is Some ==> sighting.wanted_label()
            == sighting.stored.friendly_name,
{
}

/// How a device is filed: address and configuration are those of the sighting; the label is the
/// device's, else the stored one. A light that is met for the first time was told nothing and seen
/// in no state. No other light changes, and no configuration.
pub proof fn filed_device_follows_its_configuration(
    sighting: Sighting,
    model: ControllerModel,
    now: Instant,
)
    ensures
        ({
            let id = sighting.device.id;
            let after = sighting.filed_in(model, now);
            let light = after.lights[id];
            &&& light.device == sighting.device
            &&& light.friendly_name == sighting.stored.friendly_name
            &&& light.control_enabled == sighting.stored.control_enabled
            &&& light.mode == sighting.stored.mode
            &&& light.last_discovered == now
            &&& sighting.label is Some ==> light.label == sighting.label
            &&& sighting.label is None ==> light.label == sighting.stored.device_label
            &&& after == ControllerModel { lights: model.lights.insert(id, light), ..model }
            &&& !model.lights.contains_key(id) ==> {
                &&& light.observed is None
                &&& light.desired_power is None
                &&& light.desired_color is None
                &&& light.desired_brightness is None
                &&& light.brightness_transition is None
                &&& light.power_override is None
                &&& light.last_observed is None
            }
            &&& model.lights.contains_key(id) ==> {
                let before = model.lights[id];
                &&& light.observed == before.observed
                &&& light.desired_power == before.desired_power
                &&& light.desired_color == before.desired_color
                &&& light.desired_brightness == before.desired_brightness
                &&& light.brightness_transition == before.brightness_transition
                &&& light.power_override == before.power_override
                &&& light.last_observed == before.last_observed
            }
        }),
{
}

/// A device that confirmed a label carries it from then on, also where the store did not take it;
/// where it did, the stored label is that one.
pub proof fn confirmed_label_counts(
    waiting: AwaitLabelRecord,
    model: ControllerModel,
    recorded: bool,
    now: Instant,
)
    ensures
        ({
            let id = waiting.sighting.device.id;
            let after = waiting.filed_in(model, recorded, now);
            let relabelled = waiting.sighting.relabelled(waiting.confirmed, recorded);
            &&& after.lights[id].label == Some(waiting.confirmed)
            &&& after.lights[id].device == waiting.sighting.device
            &&& after.lights[id].mode == waiting.sighting.stored.mode
            &&& after.lights[id].control_enabled == waiting.sighting.stored.control_enabled
            &&& after.lights[id].friendly_name == waiting.sighting.stored.friendly_name
            &&& relabelled.label == Some(waiting.confirmed)
            &&& relabelled.device == waiting.sighting.device
            &&& recorded ==> relabelled.stored == (StoredLight {
                device_label: Some(waiting.confirmed),
                ..waiting.sighting.stored
            })
            &&& !recorded ==> relabelled.stored == waiting.sighting.stored && after.stored
                == model.stored
            &&& recorded && model.stored.contains_key(id) ==> after.stored == model.stored.insert(
                id,
                StoredLight { device_label: Some(waiting.confirmed), ..model.stored[id] },
            )
            &&& recorded && !model.stored.contains_key(id) ==> after.stored == model.stored
            &&& forall|other: LifxId|
                other != id ==> #[trigger] after.known(other) == model.known(other)
            &&& after.groups == model.groups
        }),
{
}

/// What follows once a device's configuration is known: its name is written where one is wanted and
/// nothing changes yet; else it is filed at once.
pub proof fn sighting_is_named_or_filed(
    sighting: Sighting,
    r: RefreshStep,
    before: ControllerModel,
    after: ControllerModel,
    now: Instant,
)
    requires
        sighting.goes_on(r, before, after, now),
    ensures
        sighting.wanted_label() is Some ==> {
            &&& r is WriteLabel
            &&& r->WriteLabel_0.sighting == sighting
            &&& Some(r->WriteLabel_0.name) == sighting.stored.friendly_name
            &&& after == before
        },
        sighting.wanted_label() is None ==> {
            &&& r is Filed
            &&& r->first <==> !before.lights.contains_key(sighting.device.id)
            &&& r->unrecorded is None
            &&& after == sighting.filed_in(before, now)
        },
{
}

/// What is told of a failure of the store: a name that is taken is a conflict, one that is not
/// acceptable a bad request, a group that is gone not found, and anything else a fault whose cause
/// is for the log alone.
pub proof fn store_failures_are_answered(err: StoreError)
    ensures
        err is FriendlyNameConflict || err is GroupNameConflict ==> store_answer(err).status == 409,
        err is InvalidFriendlyName || err is InvalidGroupName ==> store_answer(err).status == 400,
        err is UnknownGroup ==> store_answer(err).status == 404,
        err is Sqlx || err is Migrate || err is InvalidLifxId || err is InvalidMode
            || err is UnknownLight ==> store_answer(err).status == 503,
        store_answer(err).cause is Some <==> store_answer(err).status == 503,
        store_answer(err).cause is Some ==> store_answer(err).cause->0
            == crate::store::store_error_text(err),
{
}

/// A bulb that fails is a fault behind the controller, and what the bulb said is passed on: of two
/// failures that differ, different things are said.
pub proof fn failures_of_bulbs_are_passed_on(a: Seq<char>, b: Seq<char>)
    ensures
        lifx_answer(a).status == 502,
        lifx_answer(a).cause is None,
        lifx_answer(a).message == lifx_answer(b).message ==> a == b,
{
    let front = "LIFX command failed: "@;
    let n = front.len() as int;
    assert((front + a).subrange(n, n + a.len()) =~= a);
    assert((front + b).subrange(n, n + b.len()) =~= b);
    assert((front + a).len() == n + a.len());
    assert((front + b).len() == n + b.len());
}

/// The light that a refused membership is complained of is the lowest one that is not stored, and
/// there is one just where not all are stored.
pub proof fn lowest_unknown_light_is_named(
    model: ControllerModel,
    ids: Seq<LifxId>,
    unknown: LifxId,
    other: LifxId,
)
    ensures
        is_first_unknown(model, ids, unknown) ==> {
            &&& ids.contains(unknown)
            &&& !model.stored.contains_key(unknown)
            &&& ids.contains(other) && !model.stored.contains_key(other) ==> unknown <= other
            &&& !are_stored(model, ids)
        },
        are_stored(model, ids) && ids.contains(other) ==> model.stored.contains_key(other),
{
}

/// What is said of a text that is taken or not acceptable tells the texts apart: of two that
/// differ, different things are said.
pub proof fn messages_tell_texts_apart(a: String, b: String)
    requires
        a@ != b@,
    ensures
        store_answer(StoreError::FriendlyNameConflict(a)).message != store_answer(
            StoreError::FriendlyNameConflict(b),
        ).message,
        store_answer(StoreError::GroupNameConflict(a)).message != store_answer(
            StoreError::GroupNameConflict(b),
        ).message,
        store_error_text(StoreError::FriendlyNameConflict(a)) != store_error_text(
            StoreError::FriendlyNameConflict(b),
        ),
        store_error_text(StoreError::InvalidFriendlyName(a)) != store_error_text(
            StoreError::InvalidFriendlyName(b),
        ),
        store_error_text(StoreError::GroupNameConflict(a)) != store_error_text(
            StoreError::GroupNameConflict(b),
        ),
        store_error_text(StoreError::InvalidGroupName(a)) != store_error_text(
            StoreError::InvalidGroupName(b),
        ),
        store_error_text(StoreError::InvalidLifxId(a)) != store_error_text(
            StoreError::InvalidLifxId(b),
        ),
        store_error_text(StoreError::InvalidMode(a)) != store_error_text(
            StoreError::InvalidMode(b),
        ),
{
    framed_texts_differ(
        "A light named '"@,
        a@,
        b@,
        "' already exists. Friendly names must be unique."@,
    );
    framed_texts_differ(
        "A group named '"@,
        a@,
        b@,
        "' already exists. Group names must be unique."@,
    );
    framed_texts_differ("friendly name '"@, a@, b@, "' is already in use"@);
    framed_texts_differ("friendly name '"@, a@, b@, "' violates database constraints"@);
    framed_texts_differ("group name '"@, a@, b@, "' is already in use"@);
    framed_texts_differ("group name '"@, a@, b@, "' violates database constraints"@);
    framed_texts_differ("invalid persisted LIFX ID '"@, a@, b@, "'"@);
    framed_texts_differ("invalid persisted light mode '"@, a@, b@, "'"@);
}

proof fn framed_texts_differ(front: Seq<char>, a: Seq<char>, b: Seq<char>, back: Seq<char>)
    requires
        a != b,
    ensures
        front + a + back != front + b + back,
{
    let x = front + a + back;
    let y = front + b + back;
    if x == y {
        assert(x.len() == front.len() + a.len() + back.len());
        assert(y.len() == front.len() + b.len() + back.len());
        let n = front.len() as int;
        assert(x.subrange(n, n + a.len()) =~= a);
        assert(y.subrange(n, n + b.len()) =~= b);
    }
}

} // verus!
