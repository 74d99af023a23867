//! What holds of the requests to Zigbee2MQTT, and of what is made of its answers.

use vstd::prelude::*;

use super::device;
use super::device::{BridgeDevice, CapabilitiesEvent, CapabilitiesStep};
use super::group;
use super::group::BridgeGroup;
use super::lib;
use super::lib::{
    BridgeRequestType, Configuration, ConfigurationManagerInner, DifferenceModel, RequestResponse,
};
use super::misc;
use crate::error;
use crate::event_manager::EventType;
use crate::json;
use crate::text;

verus! {

/// Whether there is something to do about a property: a value that is missing or null counts as the
/// default, which differs from every other value, and other values differ unless they are equal.
proof fn lemma_agree(value: json::Json, current: Option<json::Json>)
    ensures
        lib::agree(Some(value), current) <==> {
            ||| value is Null && (current is None || current->0 is Null)
            ||| !(value is Null) && current is Some && !(current->0 is Null) && json::same(
                value,
                current->0,
            )
        },
{
}

/// A wanted property is among the differences if and only if the actual value is another one: wanted
/// values that are null ask for the default, which is what a property has that is missing or null,
/// and others ask for an equal value, however deep it is nested. The difference shows both values.
pub proof fn differing_properties_are_found(
    wanted: Seq<(Seq<char>, json::Json)>,
    actual: Seq<(Seq<char>, json::Json)>,
    difference: DifferenceModel,
)
    ensures
        lib::differences(wanted, actual).contains(difference) <==> exists|i: int|
            0 <= i < wanted.len() && difference.key == (#[trigger] wanted[i]).0 && {
                let value = wanted[i].1;
                let current = json::lookup(actual, wanted[i].0);
                let unset = current is None || current->0 is Null;
                &&& !(value is Null && unset)
                &&& !(!(value is Null) && !unset && json::same(value, current->0))
                &&& difference.wanted == if value is Null {
                    "default value"@
                } else {
                    json::compact(value)
                }
                &&& difference.actual == if unset {
                    "default value"@
                } else {
                    json::compact(current->0)
                }
            },
{
    lemma_differences(wanted, actual, difference);
    let all = lib::differences(wanted, actual);
    if all.contains(difference) {
        let i = choose|i: int| #[trigger] differs_at(wanted, actual, difference, i);
        assert(wanted[i].0 == difference.key);
    }
    assert forall|i: int|
        0 <= i < wanted.len() && difference.key == (#[trigger] wanted[i]).0 && {
            let value = wanted[i].1;
            let current = json::lookup(actual, wanted[i].0);
            let unset = current is None || current->0 is Null;
            &&& !(value is Null && unset)
            &&& !(!(value is Null) && !unset && json::same(value, current->0))
            &&& difference.wanted == if value is Null {
                "default value"@
            } else {
                json::compact(value)
            }
            &&& difference.actual == if unset {
                "default value"@
            } else {
                json::compact(current->0)
            }
        } implies all.contains(difference) by {
        assert(differs_at(wanted, actual, difference, i));
    }
}

spec fn differs_at(
    wanted: Seq<(Seq<char>, json::Json)>,
    actual: Seq<(Seq<char>, json::Json)>,
    difference: DifferenceModel,
    i: int,
) -> bool {
    let value = wanted[i].1;
    let current = json::lookup(actual, wanted[i].0);
    let unset = current is None || current->0 is Null;
    &&& 0 <= i < wanted.len()
    &&& difference.key == wanted[i].0
    &&& !(value is Null && unset)
    &&& !(!(value is Null) && !unset && json::same(value, current->0))
    &&& difference.wanted == if value is Null {
        "default value"@
    } else {
        json::compact(value)
    }
    &&& difference.actual == if unset {
        "default value"@
    } else {
        json::compact(current->0)
    }
}

proof fn lemma_differences(
    wanted: Seq<(Seq<char>, json::Json)>,
    actual: Seq<(Seq<char>, json::Json)>,
    difference: DifferenceModel,
)
    ensures
        lib::differences(wanted, actual).contains(difference) <==> exists|i: int| #[trigger]
            differs_at(wanted, actual, difference, i),
    decreases wanted.len(),
{
    if wanted.len() > 0 {
        let front = wanted.drop_last();
        let last = wanted.len() - 1;
        lemma_differences(front, actual, difference);
        let before = lib::differences(front, actual);
        let after = lib::differences(wanted, actual);
        let value = wanted[last].1;
        let current = json::lookup(actual, wanted[last].0);
        lemma_agree(value, current);
        assert(wanted[last] == wanted.last());
        assert forall|i: int| 0 <= i < last implies (#[trigger] differs_at(
            wanted,
            actual,
            difference,
            i,
        ) <==> differs_at(front, actual, difference, i)) by {
            assert(front[i] == wanted[i]);
        }
        if !lib::agree(Some(value), current) {
            let pushed = after.last();
            assert(after[before.len() as int] == pushed);
            assert(differs_at(wanted, actual, pushed, last));
            assert(differs_at(wanted, actual, difference, last) <==> difference == pushed);
        } else {
            assert(!differs_at(wanted, actual, difference, last));
        }
        if before.contains(difference) {
            let k = choose|k: int| 0 <= k < before.len() && before[k] == difference;
            assert(after[k] == difference);
            let i = choose|i: int| #[trigger] differs_at(front, actual, difference, i);
            assert(differs_at(wanted, actual, difference, i));
        }
        if after.contains(difference) && !before.contains(difference) {
            let k = choose|k: int| 0 <= k < after.len() && after[k] == difference;
            assert(k < before.len() ==> before[k] == difference);
            assert(differs_at(wanted, actual, difference, last));
        }
        if exists|i: int| #[trigger] differs_at(wanted, actual, difference, i) {
            let i = choose|i: int| #[trigger] differs_at(wanted, actual, difference, i);
            if i < last {
                assert(differs_at(front, actual, difference, i));
            }
        }
    } else {
        assert forall|i: int| !(#[trigger] differs_at(wanted, actual, difference, i)) by {}
    }
}

/// There is a difference whenever a property should have a value and has none, or another one.
pub proof fn wanted_values_are_set(
    wanted: Seq<(Seq<char>, json::Json)>,
    actual: Seq<(Seq<char>, json::Json)>,
    i: int,
)
    requires
        0 <= i < wanted.len(),
        !(wanted[i].1 is Null),
        json::lookup(actual, wanted[i].0) matches Some(current) ==> !json::same(
            wanted[i].1,
            current,
        ),
    ensures
        exists|k: int|
            0 <= k < lib::differences(wanted, actual).len() && (#[trigger] lib::differences(
                wanted,
                actual,
            )[k]).key == wanted[i].0,
{
    let value = wanted[i].1;
    let current = json::lookup(actual, wanted[i].0);
    let unset = current is None || current->0 is Null;
    let difference = DifferenceModel {
        key: wanted[i].0,
        wanted: json::compact(value),
        actual: if unset {
            "default value"@
        } else {
            json::compact(current->0)
        },
    };
    differing_properties_are_found(wanted, actual, difference);
    assert(difference.key == wanted[i].0);
    let all = lib::differences(wanted, actual);
    assert(all.contains(difference));
    let k = choose|k: int| 0 <= k < all.len() && all[k] == difference;
    assert(all[k].key == wanted[i].0);
}

/// No property is reported to differ more than once, and they are reported in order.
pub proof fn differences_are_in_order(
    wanted: Seq<(Seq<char>, json::Json)>,
    actual: Seq<(Seq<char>, json::Json)>,
)
    requires
        json::keys_increase(wanted),
    ensures
        forall|j: int, k: int|
            0 <= j < k < lib::differences(wanted, actual).len() ==> text::precedes(
                (#[trigger] lib::differences(wanted, actual)[j]).key,
                (#[trigger] lib::differences(wanted, actual)[k]).key,
            ),
    decreases wanted.len(),
{
    if wanted.len() > 0 {
        let front = wanted.drop_last();
        let last = wanted.len() - 1;
        assert(json::keys_increase(front)) by {
            assert forall|i: int, j: int| 0 <= i < j < front.len() implies text::precedes(
                (#[trigger] front[i]).0,
                (#[trigger] front[j]).0,
            ) by {
                assert(wanted[i] == front[i] && wanted[j] == front[j]);
            }
        }
        differences_are_in_order(front, actual);
        let before = lib::differences(front, actual);
        let after = lib::differences(wanted, actual);
        assert forall|j: int, k: int| 0 <= j < k < after.len() implies text::precedes(
            (#[trigger] after[j]).key,
            (#[trigger] after[k]).key,
        ) by {
            assert(after[j] == before[j]);
            if k < before.len() {
                assert(after[k] == before[k]);
            } else {
                differing_properties_are_found(front, actual, before[j]);
                assert(before.contains(before[j]));
                let i = choose|i: int|
                    0 <= i < front.len() && before[j].key == (#[trigger] front[i]).0;
                assert(wanted[i] == front[i]);
                assert(text::precedes(wanted[i].0, wanted[last].0));
            }
        }
    }
}

/// Each difference is announced with a normal event before it is changed, and with a warning if it is
/// still there afterwards, both at the path of the property.
pub proof fn differences_are_reported(
    name: Seq<char>,
    list: Seq<DifferenceModel>,
    path: Seq<char>,
    i: int,
)
    requires
        0 <= i < list.len(),
    ensures
        ({
            let changes = lib::change_events(name, list, Some(path));
            let mismatches = lib::mismatch_events(name, list, Some(path));
            &&& changes.len() == list.len()
            &&& mismatches.len() == list.len()
            &&& changes[i].type_ == EventType::Normal
            &&& mismatches[i].type_ == EventType::Warning
            &&& changes[i].field_path == Some(path + "."@ + list[i].key)
            &&& mismatches[i].field_path == Some(path + "."@ + list[i].key)
            &&& changes[i].note == Some(
                "setting "@ + name + " "@ + list[i].key + " to "@ + list[i].wanted
                    + " (previously "@ + list[i].actual + ")"@,
            )
            &&& mismatches[i].note == Some(
                "unexpected result of setting "@ + name + " "@ + list[i].key + ", expected "@
                    + list[i].wanted + " but got "@ + list[i].actual,
            )
        }),
{
}

/// Which properties are reset if they aren't wanted: all options but those that are no options of
/// their own, and no capability.
pub proof fn properties_that_are_reset(key: Seq<char>)
    ensures
        device::OptionsManager::clears(key) <==> key != "friendly_name"@,
        group::OptionsManager::clears(key) <==> !seq![
            "ID"@,
            "friendly_name"@,
            "devices"@,
        ].contains(key),
        !device::CapabilitiesManager::clears(key),
{
    let names = seq!["ID"@, "friendly_name"@, "devices"@];
    assert(names[0] == "ID"@ && names[1] == "friendly_name"@ && names[2] == "devices"@);
}

/// A message mentions a name if and only if it has it in single quotes, wherever that is.
pub proof fn names_are_mentioned_in_quotes(message: Seq<char>, name: Seq<char>)
    ensures
        lib::mentions(message, name) <==> exists|before: Seq<char>, after: Seq<char>|
            message == #[trigger] (before + ("'"@ + name + "'"@) + after),
{
    text::occurrence_splits_the_text("'"@ + name + "'"@, message);
}

/// What answers a request to rename a device: success with the new name, or an error that mentions it.
pub proof fn device_renames_are_answered(
    request: device::RenameRequest,
    response: RequestResponse<device::RenameResponse>,
)
    ensures
        device::Renamer::is_related(request, response) <==> {
            ||| response is Success && response->data.to@ == request.to@
            ||| response is Error && lib::mentions(response->error@, request.to@)
        },
        device::Renamer::blame(request, response) is None,
{
}

/// What answers a request to set the options of a device: success for its address, or an error that
/// mentions the address.
pub proof fn device_options_are_answered(
    request: device::OptionsRequest,
    response: RequestResponse<device::OptionsResponse>,
)
    ensures
        device::OptionsManager::is_related(request, response) <==> {
            ||| response is Success && response->data.id@ == request.id@
            ||| response is Error && lib::mentions(response->error@, request.id@)
        },
        device::OptionsManager::blame(request, response) is None,
{
}

/// What answers a request to create a group: success with its name, or an error that mentions the
/// number that was asked for, which is then the cause, or the name.
pub proof fn creations_are_answered(
    request: group::CreateRequest,
    response: RequestResponse<group::CreateResponse>,
)
    ensures
        ({
            let asked = request.id.inner() is Some && lib::mentions(
                response->error@,
                text::decimal(request.id.inner()->0 as nat),
            );
            let named = lib::mentions(response->error@, request.friendly_name.inner()@);
            &&& response is Success ==> (group::Creator::is_related(request, response)
                <==> response->data.friendly_name@ == request.friendly_name.inner()@)
            &&& response is Error ==> (group::Creator::is_related(request, response) <==> asked
                || named)
            &&& response is Error && asked ==> group::Creator::blame(request, response)
                == request.id.path()
            &&& response is Error && !asked ==> group::Creator::blame(request, response)
                == request.friendly_name.path()
        }),
{
}

/// What answers a request to delete a group: success with its number, or an error that quotes the
/// request for it.
pub proof fn deletions_are_answered(
    request: group::DeleteRequest,
    response: RequestResponse<group::DeleteResponse>,
)
    ensures
        group::Deletor::is_related(request, response) <==> {
            ||| response is Success && response->data.id == request.id.inner()
            ||| response is Error && text::occurs_in(
                "\"groupid\":"@ + text::decimal(request.id.inner() as nat),
                response->error@,
            )
        },
        group::Deletor::blame(request, response) == request.id.path(),
{
}

/// What answers a request to rename a group: success with the new name, or an error that mentions the
/// number of the group, which is then the cause, or the new name.
pub proof fn group_renames_are_answered(
    request: group::RenameRequest,
    response: RequestResponse<group::RenameResponse>,
)
    ensures
        ({
            let numbered = lib::mentions(
                response->error@,
                text::decimal(request.from.inner() as nat),
            );
            let named = lib::mentions(response->error@, request.to.inner()@);
            &&& response is Success ==> (group::Renamer::is_related(request, response)
                <==> response->data.to@ == request.to.inner()@)
            &&& response is Error ==> (group::Renamer::is_related(request, response) <==> numbered
                || named)
            &&& response is Error && numbered ==> group::Renamer::blame(request, response)
                == request.from.path()
            &&& response is Error && !numbered ==> group::Renamer::blame(request, response)
                == request.to.path()
        }),
{
}

/// What answers a request to add or remove a member: success for the group and the device, or an error
/// that mentions the number of the group, which is then the cause, or the device.
pub proof fn member_changes_are_answered(
    request: group::MemberRequest,
    response: RequestResponse<group::MemberResponse>,
)
    ensures
        ({
            let numbered = lib::mentions(
                response->error@,
                text::decimal(request.group.inner() as nat),
            );
            let named = lib::mentions(response->error@, request.device.inner()@);
            let related = {
                ||| response is Success && response->data.group == request.group.inner()
                    && response->data.device@ == request.device.inner()@
                ||| response is Error && (numbered || named)
            };
            &&& group::MemberAdder::is_related(request, response) <==> related
            &&& group::MemberRemover::is_related(request, response) <==> related
            &&& response is Error && numbered ==> group::MemberAdder::blame(request, response)
                == request.group.path() && group::MemberRemover::blame(request, response)
                == request.group.path()
            &&& response is Error && !numbered ==> group::MemberAdder::blame(request, response)
                == request.device.path() && group::MemberRemover::blame(request, response)
                == request.device.path()
        }),
{
}

/// What answers a request to set or remove options of a group: success for its number, or an error
/// that mentions it. The number is the cause.
pub proof fn group_options_are_answered(
    set: group::OptionsSetRequest,
    unset: group::OptionsUnsetRequest,
    response: RequestResponse<group::OptionsChangeResponse>,
)
    ensures
        group::OptionsSetter::is_related(set, response) <==> {
            ||| response is Success && response->data.id == set.id.inner()
            ||| response is Error && lib::mentions(
                response->error@,
                text::decimal(set.id.inner() as nat),
            )
        },
        group::OptionsUnsetter::is_related(unset, response) <==> {
            ||| response is Success && response->data.id == unset.id.inner()
            ||| response is Error && lib::mentions(
                response->error@,
                text::decimal(unset.id.inner() as nat),
            )
        },
        group::OptionsSetter::blame(set, response) == set.id.path(),
        group::OptionsUnsetter::blame(unset, response) == unset.id.path(),
{
}

/// Everything answers a request that names nothing: healthchecks, restarts, and extensions.
pub proof fn plain_requests_are_answered(
    request: json::JsonObject,
    extension: misc::ExtensionInstallRequest,
    health: RequestResponse<misc::HealthcheckResponse>,
    response: RequestResponse<json::JsonObject>,
)
    ensures
        misc::HealthChecker::is_related(request, health),
        misc::Restarter::is_related(request, response),
        misc::ExtensionInstaller::is_related(extension, response),
{
}

proof fn lemma_group_with_id(groups: Seq<BridgeGroup>, id: usize)
    ensures
        match group::group_with_id(groups, id) {
            Some(i) => {
                &&& 0 <= i < groups.len()
                &&& groups[i].id == id
                &&& forall|j: int| 0 <= j < i ==> (#[trigger] groups[j]).id != id
            },
            None => forall|j: int| 0 <= j < groups.len() ==> (#[trigger] groups[j]).id != id,
        },
    decreases groups.len(),
{
    if groups.len() > 0 {
        let front = groups.drop_last();
        lemma_group_with_id(front, id);
        assert forall|j: int| 0 <= j < front.len() implies (#[trigger] groups[j]).id
            == front[j].id by {}
    }
}

proof fn lemma_group_with_name(groups: Seq<BridgeGroup>, name: Seq<char>)
    ensures
        match group::group_with_name(groups, name) {
            Some(i) => {
                &&& 0 <= i < groups.len()
                &&& groups[i].friendly_name@ == name
                &&& forall|j: int| 0 <= j < i ==> (#[trigger] groups[j]).friendly_name@ != name
            },
            None => forall|j: int|
                0 <= j < groups.len() ==> (#[trigger] groups[j]).friendly_name@ != name,
        },
    decreases groups.len(),
{
    if groups.len() > 0 {
        let front = groups.drop_last();
        lemma_group_with_name(front, name);
        assert forall|j: int| 0 <= j < front.len() implies (#[trigger] groups[j]).friendly_name
            == front[j].friendly_name by {}
    }
}

/// Looking for a group by its number, or by its name, finds the first that has it, if there is one.
pub proof fn groups_are_found(groups: Seq<BridgeGroup>, id: usize, name: Seq<char>)
    ensures
        match group::group_with_id(groups, id) {
            Some(i) => {
                &&& 0 <= i < groups.len()
                &&& groups[i].id == id
                &&& forall|j: int| 0 <= j < i ==> (#[trigger] groups[j]).id != id
            },
            None => forall|j: int| 0 <= j < groups.len() ==> (#[trigger] groups[j]).id != id,
        },
        match group::group_with_name(groups, name) {
            Some(i) => {
                &&& 0 <= i < groups.len()
                &&& groups[i].friendly_name@ == name
                &&& forall|j: int| 0 <= j < i ==> (#[trigger] groups[j]).friendly_name@ != name
            },
            None => forall|j: int|
                0 <= j < groups.len() ==> (#[trigger] groups[j]).friendly_name@ != name,
        },
{
    lemma_group_with_id(groups, id);
    lemma_group_with_name(groups, name);
}

/// Looking for a device by its address finds the first that has it, if there is one.
pub proof fn devices_are_found(devices: Seq<BridgeDevice>, ieee_address: Seq<char>)
    ensures
        match device::device_index(devices, ieee_address) {
            Some(i) => {
                &&& 0 <= i < devices.len()
                &&& devices[i].ieee_address@ == ieee_address
                &&& forall|j: int|
                    0 <= j < i ==> (#[trigger] devices[j]).ieee_address@ != ieee_address
            },
            None => forall|j: int|
                0 <= j < devices.len() ==> (#[trigger] devices[j]).ieee_address@ != ieee_address,
        },
    decreases devices.len(),
{
    if devices.len() > 0 {
        let front = devices.drop_last();
        devices_are_found(front, ieee_address);
        assert forall|j: int| 0 <= j < front.len() implies (#[trigger] devices[j]).ieee_address
            == front[j].ieee_address by {}
    }
}

/// A device can be managed if and only if Zigbee2MQTT knows it, has finished adding it, and supports
/// it; nothing else about it matters. A device that is still being added is worth another try, the
/// others are faults of the resource.
pub proof fn managed_devices_are_ready(
    devices: Seq<BridgeDevice>,
    ieee_address: Seq<char>,
    i: int,
)
    requires
        0 <= i < devices.len(),
        devices[i].ieee_address@ == ieee_address,
        forall|j: int| 0 <= j < i ==> (#[trigger] devices[j]).ieee_address@ != ieee_address,
    ensures
        ({
            let found = device::device_index(devices, ieee_address);
            let problem = device::device_problem(
                ieee_address,
                device::device_state(devices, found),
            );
            &&& problem is None <==> devices[i].interview_completed && devices[i].supported
            &&& !devices[i].interview_completed ==> problem == Some(
                error::ErrorModel::ActionFailed(
                    "device with ieee_address "@ + ieee_address
                        + " is still being added to Zigbee2MQTT"@,
                    None,
                ),
            )
            &&& devices[i].interview_completed && !devices[i].supported ==> problem == Some(
                error::ErrorModel::InvalidResource {
                    field_path: Seq::empty(),
                    message: "device is not supported by Zigbee2MQTT"@,
                },
            )
        }),
{
    devices_are_found(devices, ieee_address);
    let found = device::device_index(devices, ieee_address);
    let k = found->0;
    if k < i {
        assert(devices[k].ieee_address@ == ieee_address);
    }
    if i < k {
        assert(devices[i].ieee_address@ != ieee_address);
    }
}

/// A device that Zigbee2MQTT doesn't know can't be managed.
pub proof fn unknown_devices_are_not_managed(devices: Seq<BridgeDevice>, ieee_address: Seq<char>)
    requires
        forall|j: int|
            0 <= j < devices.len() ==> (#[trigger] devices[j]).ieee_address@ != ieee_address,
    ensures
        device::device_problem(
            ieee_address,
            device::device_state(devices, device::device_index(devices, ieee_address)),
        ) == Some(
            error::ErrorModel::InvalidResource {
                field_path: Seq::empty(),
                message: "device is not known to Zigbee2MQTT"@,
            },
        ),
{
    devices_are_found(devices, ieee_address);
}

/// The device that is found among those known in short is the first with the address, if there is one.
pub proof fn short_devices_are_found(
    devices: Seq<super::BridgeDevice>,
    ieee_address: Seq<char>,
)
    ensures
        match super::known_device(devices, ieee_address) {
            Some(found) => exists|i: int|
                0 <= i < devices.len() && #[trigger] devices[i] == found && found.ieee_address@
                    == ieee_address && forall|j: int|
                    0 <= j < i ==> (#[trigger] devices[j]).ieee_address@ != ieee_address,
            None => forall|j: int|
                0 <= j < devices.len() ==> (#[trigger] devices[j]).ieee_address@ != ieee_address,
        },
    decreases devices.len(),
{
    if devices.len() > 0 && devices[0].ieee_address@ != ieee_address {
        let rest = devices.drop_first();
        short_devices_are_found(rest, ieee_address);
        match super::known_device(rest, ieee_address) {
            Some(found) => {
                let i = choose|i: int|
                    0 <= i < rest.len() && #[trigger] rest[i] == found && found.ieee_address@
                        == ieee_address && forall|j: int|
                        0 <= j < i ==> (#[trigger] rest[j]).ieee_address@ != ieee_address;
                assert(devices[i + 1] == found);
                assert forall|j: int| 0 <= j < i + 1 implies (
                #[trigger] devices[j]).ieee_address@ != ieee_address by {
                    if j > 0 {
                        assert(rest[j - 1] == devices[j]);
                    }
                }
            },
            None => {
                assert forall|j: int| 0 <= j < devices.len() implies (
                #[trigger] devices[j]).ieee_address@ != ieee_address by {
                    if j > 0 {
                        assert(rest[j - 1] == devices[j]);
                    }
                }
            },
        }
    }
}

/// The options of a device are those listed for its address, the first ones if there are several, and
/// none are set if there are none.
pub proof fn options_of_devices_are_found(
    devices: Seq<(String, Configuration)>,
    ieee_address: Seq<char>,
)
    ensures
        forall|i: int|
            0 <= i < devices.len() && (#[trigger] devices[i]).0@ == ieee_address && (forall|j: int|
                0 <= j < i ==> (#[trigger] devices[j]).0@ != ieee_address)
                ==> misc::options_of_device(devices, ieee_address) == devices[i].1@,
        (forall|j: int| 0 <= j < devices.len() ==> (#[trigger] devices[j]).0@ != ieee_address)
            ==> misc::options_of_device(devices, ieee_address).len() == 0,
    decreases devices.len(),
{
    if devices.len() > 0 && devices[0].0@ != ieee_address {
        let rest = devices.drop_first();
        options_of_devices_are_found(rest, ieee_address);
        assert forall|i: int|
            0 <= i < devices.len() && (#[trigger] devices[i]).0@ == ieee_address && (forall|j: int|
                0 <= j < i ==> (#[trigger] devices[j]).0@ != ieee_address) implies misc::options_of_device(
        devices, ieee_address) == devices[i].1@ by {
            assert(rest[i - 1] == devices[i]);
            assert forall|j: int| 0 <= j < i - 1 implies (#[trigger] rest[j]).0@
                != ieee_address by {
                assert(rest[j] == devices[j + 1]);
            }
        }
        if forall|j: int| 0 <= j < devices.len() ==> (#[trigger] devices[j]).0@ != ieee_address {
            assert forall|j: int| 0 <= j < rest.len() implies (#[trigger] rest[j]).0@
                != ieee_address by {
                assert(rest[j] == devices[j + 1]);
            }
        }
    }
}

/// The options of a group are those listed for its number, the first ones if there are several, and
/// none are set if there are none.
pub proof fn options_of_groups_are_found(groups: Seq<(usize, Configuration)>, id: usize)
    ensures
        forall|i: int|
            0 <= i < groups.len() && (#[trigger] groups[i]).0 == id && (forall|j: int|
                0 <= j < i ==> (#[trigger] groups[j]).0 != id) ==> misc::options_of_group(
                groups,
                id,
            ) == groups[i].1@,
        (forall|j: int| 0 <= j < groups.len() ==> (#[trigger] groups[j]).0 != id)
            ==> misc::options_of_group(groups, id).len() == 0,
    decreases groups.len(),
{
    if groups.len() > 0 && groups[0].0 != id {
        let rest = groups.drop_first();
        options_of_groups_are_found(rest, id);
        assert forall|i: int|
            0 <= i < groups.len() && (#[trigger] groups[i]).0 == id && (forall|j: int|
                0 <= j < i ==> (#[trigger] groups[j]).0 != id) implies misc::options_of_group(
            groups,
            id,
        ) == groups[i].1@ by {
            assert(rest[i - 1] == groups[i]);
            assert forall|j: int| 0 <= j < i - 1 implies (#[trigger] rest[j]).0 != id by {
                assert(rest[j] == groups[j + 1]);
            }
        }
        if forall|j: int| 0 <= j < groups.len() ==> (#[trigger] groups[j]).0 != id {
            assert forall|j: int| 0 <= j < rest.len() implies (#[trigger] rest[j]).0 != id by {
                assert(rest[j] == groups[j + 1]);
            }
        }
    }
}

/// Reading or writing capabilities ends with what the device publishes, with an error that is logged
/// for this device, with a failure to get or send messages, or with a timeout. Errors that are logged
/// for other devices don't end it, and the message is sent again once, after half of the time.
pub proof fn capabilities_end(
    friendly_name: Seq<char>,
    verb: Seq<char>,
    event: CapabilitiesEvent,
    step: CapabilitiesStep,
)
    requires
        device::capabilities_follow(friendly_name, verb, event, step),
    ensures
        step is Resend <==> event is HalfTimeout,
        event matches CapabilitiesEvent::Device(result) ==> step == CapabilitiesStep::Done(result),
        event is Timeout ==> step is Done && step->Done_0 is Err,
        event matches CapabilitiesEvent::Log(Ok(log)) ==> (step is Done
            <==> log.meta.friendly_name@ == friendly_name),
        event matches CapabilitiesEvent::Log(Ok(log)) ==> (step matches CapabilitiesStep::Done(r)
            ==> r is Err),
        event matches CapabilitiesEvent::Log(Err(e)) ==> step == CapabilitiesStep::Done(Err(e)),
        event matches CapabilitiesEvent::Resent(Ok(_)) ==> step is Wait,
        event matches CapabilitiesEvent::Resent(Err(e)) ==> step == CapabilitiesStep::Done(Err(e)),
{
}

/// A response that is related to a request ends it with what it says, and others are skipped.
pub proof fn related_responses_end_requests<V>(
    r: Option<Result<V, error::ErrorWithMeta>>,
    response: RequestResponse<V>,
    related: bool,
    source: Option<Seq<char>>,
)
    requires
        lib::answers(r, response, related, source),
    ensures
        r is Some <==> related,
        related && response is Success ==> r == Some(
            Ok::<V, error::ErrorWithMeta>(response->data),
        ),
        related && response is Error ==> r->0 is Err && r->0->Err_0@.error
            == error::ErrorModel::Zigbee2MQTTError(response->error@) && r->0->Err_0@.source
            == source,
{
}

/// Requests about devices say which device they are about, and what is to become of it.
pub proof fn device_requests_say_what_is_asked(
    rename: device::RenameRequest,
    options: device::OptionsRequest,
)
    ensures
        ({
            let asked = device::Renamer::document(rename)->Object_0;
            let plain = super::DeviceRenamer::document(rename)->Object_0;
            let set = device::OptionsManager::document(options)->Object_0;
            &&& asked.len() == 3
            &&& asked.contains(("from"@, json::Json::Text(rename.from@)))
            &&& asked.contains(("to"@, json::Json::Text(rename.to@)))
            &&& asked.contains(
                ("homeassistant_rename"@, json::Json::Bool(rename.homeassistant_rename)),
            )
            &&& plain.len() == 3
            &&& plain.contains(("from"@, json::Json::Text(rename.from@)))
            &&& plain.contains(("to"@, json::Json::Text(rename.to@)))
            &&& plain.contains(
                ("homeassistant_rename"@, json::Json::Bool(rename.homeassistant_rename)),
            )
            &&& set.len() == 2
            &&& set.contains(("id"@, json::Json::Text(options.id@)))
            &&& set.contains(("options"@, json::Json::Object(options.options@)))
        }),
{
    let asked = device::Renamer::document(rename)->Object_0;
    let plain = super::DeviceRenamer::document(rename)->Object_0;
    let set = device::OptionsManager::document(options)->Object_0;
    assert(asked.contains(asked[0]) && asked.contains(asked[1]) && asked.contains(asked[2]));
    assert(plain.contains(plain[0]) && plain.contains(plain[1]) && plain.contains(plain[2]));
    assert(set.contains(set[0]) && set.contains(set[1]));
}

/// Requests about groups say which group they are about, and what is to become of it.
pub proof fn group_requests_say_what_is_asked(
    create: group::CreateRequest,
    delete: group::DeleteRequest,
    rename: group::RenameRequest,
    member: group::MemberRequest,
    set: group::OptionsSetRequest,
    unset: group::OptionsUnsetRequest,
)
    ensures
        ({
            let number = |n: usize| json::Json::Number(json::NumberModel::PosInt(n as u64));
            let created = group::Creator::document(create)->Object_0;
            let deleted = group::Deletor::document(delete)->Object_0;
            let renamed = group::Renamer::document(rename)->Object_0;
            let added = group::MemberAdder::document(member)->Object_0;
            let options = group::OptionsSetter::document(set)->Object_0;
            let removed = group::OptionsUnsetter::document(unset)->Object_0;
            &&& created.len() == 2
            &&& create.id.inner() is Some ==> created.contains(
                ("id"@, number(create.id.inner()->0)),
            )
            &&& create.id.inner() is None ==> created.contains(("id"@, json::Json::Null))
            &&& created.contains(
                ("friendly_name"@, json::Json::Text(create.friendly_name.inner()@)),
            )
            &&& deleted == seq![("id"@, number(delete.id.inner()))]
            &&& renamed.len() == 3
            &&& renamed.contains(("from"@, number(rename.from.inner())))
            &&& renamed.contains(("to"@, json::Json::Text(rename.to.inner()@)))
            &&& renamed.contains(
                ("homeassistant_rename"@, json::Json::Bool(rename.homeassistant_rename)),
            )
            &&& added.len() == 2
            &&& added.contains(("group"@, number(member.group.inner())))
            &&& added.contains(("device"@, json::Json::Text(member.device.inner()@)))
            &&& group::MemberRemover::document(member) == group::MemberAdder::document(member)
            &&& options.len() == 2
            &&& options.contains(("id"@, number(set.id.inner())))
            &&& options.contains(("options"@, json::Json::Object(set.options.inner()@)))
            &&& removed.len() == 2
            &&& removed.contains(("id"@, number(unset.id.inner())))
            &&& removed[1].0 == "paths"@ && removed[1].1 is Array
            &&& removed[1].1->Array_0.len() == unset.paths.inner()@.len()
            &&& forall|i: int|
                0 <= i < unset.paths.inner()@.len() ==> #[trigger] removed[1].1->Array_0[i]
                    == json::Json::Text(unset.paths.inner()@[i]@)
        }),
{
    let created = group::Creator::document(create)->Object_0;
    let renamed = group::Renamer::document(rename)->Object_0;
    let added = group::MemberAdder::document(member)->Object_0;
    let options = group::OptionsSetter::document(set)->Object_0;
    let removed = group::OptionsUnsetter::document(unset)->Object_0;
    assert(created.contains(created[0]) && created.contains(created[1]));
    assert(renamed.contains(renamed[0]) && renamed.contains(renamed[1]) && renamed.contains(
        renamed[2],
    ));
    assert(added.contains(added[0]) && added.contains(added[1]));
    assert(options.contains(options[0]) && options.contains(options[1]));
    assert(removed.contains(removed[0]) && removed.contains(removed[1]));
}

/// Each kind of request is sent to a topic of its own, and the plain way to rename a device is the same
/// request as the other one.
pub proof fn requests_have_their_topics()
    ensures
        device::Renamer::request_name() == "device/rename"@,
        super::DeviceRenamer::request_name() == "device/rename"@,
        device::OptionsManager::request_name() == "device/options"@,
        group::Creator::request_name() == "group/add"@,
        group::Deletor::request_name() == "group/remove"@,
        group::Renamer::request_name() == "group/rename"@,
        group::MemberAdder::request_name() == "group/members/add"@,
        group::MemberRemover::request_name() == "group/members/remove"@,
        group::OptionsSetter::request_name() == "group/options"@,
        group::OptionsUnsetter::request_name() == "group/unset-options"@,
        misc::HealthChecker::request_name() == "health_check"@,
        misc::Restarter::request_name() == "restart"@,
        misc::ExtensionInstaller::request_name() == "extension/save"@,
{
}

/// What is set is called an option, or a capability.
pub proof fn properties_are_called()
    ensures
        device::OptionsManager::category() == "option"@,
        group::OptionsManager::category() == "option"@,
        device::CapabilitiesManager::category() == "capability"@,
{
}

/// An action on the capabilities of a device that fails or takes too long names the action and the
/// device, and what was logged.
pub proof fn failed_capabilities_are_explained(
    friendly_name: Seq<char>,
    verb: Seq<char>,
    event: CapabilitiesEvent,
    step: CapabilitiesStep,
)
    requires
        device::capabilities_follow(friendly_name, verb, event, step),
    ensures
        event is Timeout ==> step->Done_0->Err_0@ == error::ErrorModel::Zigbee2MQTTError(
            "timeout while attempting to "@ + verb + " current state of device "@ + friendly_name,
        ),
        event matches CapabilitiesEvent::Log(Ok(log)) ==> (log.meta.friendly_name@ == friendly_name
            ==> step->Done_0->Err_0@ == error::ErrorModel::Zigbee2MQTTError(
            "error while attempting to "@ + verb + " current state of device "@ + friendly_name
                + ": "@ + error::described(log.message@),
        )),
{
}

/// How a value reads in a report: as a document, and as the default value if it is missing or null.
pub proof fn values_are_shown(value: json::Json)
    ensures
        lib::shown(None) == "default value"@,
        lib::shown(Some(json::Json::Null)) == "default value"@,
        !(value is Null) ==> lib::shown(Some(value)) == json::compact(value),
{
}

/// What answers the plain request to rename a device: success with the new name, or the error that this
/// name is in use already, and no other error.
pub proof fn plain_renames_are_answered(
    request: device::RenameRequest,
    response: RequestResponse<device::RenameResponse>,
)
    ensures
        super::DeviceRenamer::is_related(request, response) <==> {
            ||| response is Success && response->data.to@ == request.to@
            ||| response is Error && response->error@ == "friendly_name '"@ + request.to@
                + "' is already in use"@
        },
        super::DeviceRenamer::blame(request, response) is None,
{
}

/// Requests that name nothing send what they are given: an object as it is, and an extension with its
/// name and its code. Nothing in them is the cause of an error.
pub proof fn plain_requests_say_what_is_asked(
    request: json::JsonObject,
    extension: misc::ExtensionInstallRequest,
    health: RequestResponse<misc::HealthcheckResponse>,
    response: RequestResponse<json::JsonObject>,
)
    ensures
        misc::HealthChecker::document(request) == json::Json::Object(request@),
        misc::Restarter::document(request) == json::Json::Object(request@),
        misc::ExtensionInstaller::document(extension) == json::Json::Object(
            seq![
                ("name"@, json::Json::Text(extension.name@)),
                ("code"@, json::Json::Text(extension.code@)),
            ],
        ),
        misc::HealthChecker::blame(request, health) is None,
        misc::Restarter::blame(request, response) is None,
        misc::ExtensionInstaller::blame(extension, response) is None,
{
}

} // verus!
