//! What holds of reconciliations, whatever the resources.

use vstd::prelude::*;

use super::device;
use super::device::DeviceProgress;
use super::group;
use super::group::GroupProgress;
use super::instance;
use super::instance::{ManagedResource, SetupStep, Unmanaged};
use crate::crds::{
    Device, DeviceStatus, Group, GroupStatus, Instance, InstanceHandleUnmanaged, InstanceStatus,
};
use crate::error::Error;
use crate::event_manager::EventType;
use crate::mqtt::handlers::device::BridgeDevice;
use crate::mqtt::handlers::group::{BridgeGroup, BridgeGroupMember};
use crate::mqtt::manager::{ConnectionStatus, Status};
use crate::text;

verus! {

/// A name resolves if and only if some device has it as its address or as its name; nothing else about
/// the device matters. The result is the address of such a device, the last one if there are several.
pub proof fn names_are_resolved(devices: Seq<BridgeDevice>, name: Seq<char>)
    ensures
        group::resolved_device(devices, name) is Some <==> exists|i: int|
            0 <= i < devices.len() && ((#[trigger] devices[i]).ieee_address@ == name
                || devices[i].friendly_name@ == name),
        forall|i: int|
            0 <= i < devices.len() && ((#[trigger] devices[i]).ieee_address@ == name
                || devices[i].friendly_name@ == name) && (forall|j: int|
                i < j < devices.len() ==> (#[trigger] devices[j]).ieee_address@ != name
                    && devices[j].friendly_name@ != name) ==> group::resolved_device(devices, name)
                == Some(devices[i].ieee_address@),
{
    lemma_resolved(devices, name);
    if let Some(address) = group::resolved_device(devices, name) {
        let k = choose|k: int| #[trigger] resolves_at(devices, name, k);
        assert(is_called(devices[k], name));
        assert(devices[k].ieee_address@ == name || devices[k].friendly_name@ == name);
        assert forall|i: int|
            0 <= i < devices.len() && ((#[trigger] devices[i]).ieee_address@ == name
                || devices[i].friendly_name@ == name) && (forall|j: int|
                i < j < devices.len() ==> (#[trigger] devices[j]).ieee_address@ != name
                    && devices[j].friendly_name@ != name) implies i == k by {
            assert(is_called(devices[i], name));
            if i < k {
                assert(devices[k].ieee_address@ != name && devices[k].friendly_name@ != name);
            }
        }
    } else {
        assert forall|i: int| 0 <= i < devices.len() implies (
        #[trigger] devices[i]).ieee_address@ != name && devices[i].friendly_name@ != name by {
            assert(!is_called(devices[i], name));
        }
    }
}

spec fn is_called(device: BridgeDevice, name: Seq<char>) -> bool {
    device.ieee_address@ == name || device.friendly_name@ == name
}

spec fn resolves_at(devices: Seq<BridgeDevice>, name: Seq<char>, k: int) -> bool {
    &&& 0 <= k < devices.len()
    &&& is_called(devices[k], name)
    &&& forall|j: int| k < j < devices.len() ==> !is_called(#[trigger] devices[j], name)
}

proof fn lemma_resolved(devices: Seq<BridgeDevice>, name: Seq<char>)
    ensures
        match group::resolved_device(devices, name) {
            Some(address) => exists|k: int| #[trigger]
                resolves_at(devices, name, k) && address == devices[k].ieee_address@,
            None => forall|j: int|
                0 <= j < devices.len() ==> !is_called(#[trigger] devices[j], name),
        },
        forall|i: int, k: int| #[trigger]
            resolves_at(devices, name, i) && #[trigger] resolves_at(devices, name, k) ==> i == k,
    decreases devices.len(),
{
    if devices.len() > 0 {
        let front = devices.drop_last();
        let last = devices.len() - 1;
        lemma_resolved(front, name);
        if is_called(devices[last], name) {
            assert(resolves_at(devices, name, last));
        } else {
            if let Some(address) = group::resolved_device(front, name) {
                let k = choose|k: int| #[trigger]
                    resolves_at(front, name, k) && address == front[k].ieee_address@;
                assert forall|j: int| k < j < devices.len() implies !is_called(
                    #[trigger] devices[j],
                    name,
                ) by {
                    if j < last {
                        assert(front[j] == devices[j]);
                    }
                }
                assert(resolves_at(devices, name, k));
            } else {
                assert forall|j: int| 0 <= j < devices.len() implies !is_called(
                    #[trigger] devices[j],
                    name,
                ) by {
                    if j < last {
                        assert(front[j] == devices[j]);
                    }
                }
            }
        }
        assert forall|i: int, k: int| #[trigger]
            resolves_at(devices, name, i) && #[trigger] resolves_at(devices, name, k) implies i
            == k by {
            if i < k {
                assert(!is_called(devices[k], name));
            }
            if k < i {
                assert(!is_called(devices[i], name));
            }
        }
    }
}

/// The wanted members are known if and only if every name resolves. They are then exactly the devices
/// that the names resolve to. Otherwise the first name that doesn't is reported, where it is listed.
pub proof fn wanted_members_are_resolved(
    devices: Seq<BridgeDevice>,
    members: Seq<Seq<char>>,
    path: Seq<char>,
    address: Seq<char>,
)
    ensures
        ({
            let wanted = group::wanted_members(devices, members, Some(path));
            &&& wanted is Ok <==> forall|i: int|
                0 <= i < members.len() ==> group::resolved_device(
                    devices,
                    #[trigger] members[i],
                ) is Some
            &&& wanted matches Ok(list) ==> ((exists|k: int|
                0 <= k < list.len() && (#[trigger] list[k]).0 == address) <==> (exists|i: int|
                0 <= i < members.len() && group::resolved_device(devices, #[trigger] members[i])
                    == Some(address)))
            &&& wanted matches Err((name, source)) ==> exists|i: int|
                0 <= i < members.len() && #[trigger] members[i] == name && group::resolved_device(
                    devices,
                    members[i],
                ) is None && source == Some(path + "["@ + text::decimal(i as nat) + "]"@) && (
                forall|j: int|
                    0 <= j < i ==> group::resolved_device(devices, #[trigger] members[j]) is Some)
        }),
    decreases members.len(),
{
    if members.len() > 0 {
        let front = members.drop_last();
        let last = members.len() - 1;
        wanted_members_are_resolved(devices, front, path, address);
        assert(members[last] == members.last());
        assert(forall|i: int| 0 <= i < last ==> #[trigger] front[i] == members[i]);
        let before = group::wanted_members(devices, front, Some(path));
        let after = group::wanted_members(devices, members, Some(path));
        match before {
            Err((name, source)) => {
                let i = choose|i: int|
                    0 <= i < front.len() && #[trigger] front[i] == name && group::resolved_device(
                        devices,
                        front[i],
                    ) is None && source == Some(path + "["@ + text::decimal(i as nat) + "]"@) && (
                    forall|j: int|
                        0 <= j < i ==> group::resolved_device(devices, #[trigger] front[j]) is Some);
                assert(members[i] == front[i]);
                assert forall|j: int| 0 <= j < i implies group::resolved_device(
                    devices,
                    #[trigger] members[j],
                ) is Some by {
                    assert(front[j] == members[j]);
                }
            },
            Ok(list) => {
                assert forall|i: int| 0 <= i < last implies group::resolved_device(
                    devices,
                    #[trigger] members[i],
                ) is Some by {
                    assert(front[i] == members[i]);
                }
                if let Ok(all) = after {
                    let found = group::resolved_device(devices, members[last])->0;
                    if exists|i: int|
                        0 <= i < members.len() && group::resolved_device(
                            devices,
                            #[trigger] members[i],
                        ) == Some(address) {
                        let i = choose|i: int|
                            0 <= i < members.len() && group::resolved_device(
                                devices,
                                #[trigger] members[i],
                            ) == Some(address);
                        if i < last {
                            assert(front[i] == members[i]);
                            let k = choose|k: int|
                                0 <= k < list.len() && (#[trigger] list[k]).0 == address;
                            assert(all[k] == list[k]);
                        } else if group::has_address(list, address) {
                            let k = choose|k: int|
                                0 <= k < list.len() && (#[trigger] list[k]).0 == address;
                            assert(all[k].0 == address);
                        } else {
                            assert(all[list.len() as int].0 == address);
                        }
                    }
                    if exists|k: int| 0 <= k < all.len() && (#[trigger] all[k]).0 == address {
                        let k = choose|k: int| 0 <= k < all.len() && (#[trigger] all[k]).0 == address;
                        if k < list.len() {
                            assert(list[k] == all[k]);
                            let i = choose|i: int|
                                0 <= i < front.len() && group::resolved_device(
                                    devices,
                                    #[trigger] front[i],
                                ) == Some(address);
                            assert(members[i] == front[i]);
                        }
                    }
                }
            },
        }
    }
}

/// Once the plan for the members of a group has been carried out, a device is a member if and only if
/// one of the wanted names resolves to it, whatever the members were before.
pub proof fn members_become_the_wanted_ones(
    devices: Seq<BridgeDevice>,
    members: Seq<Seq<char>>,
    path: Seq<char>,
    current: Seq<BridgeGroupMember>,
    address: Seq<char>,
)
    requires
        group::wanted_members(devices, members, Some(path)) is Ok,
    ensures
        ({
            let wanted = group::wanted_members(devices, members, Some(path))->Ok_0;
            let now = group::member_addresses(current);
            let removed = group::removals(now, wanted);
            let added = group::additions(now, wanted);
            let was = exists|i: int|
                0 <= i < current.len() && (#[trigger] current[i]).ieee_address@ == address;
            let leaves = exists|k: int| 0 <= k < removed.len() && #[trigger] removed[k] == address;
            let joins = exists|k: int| 0 <= k < added.len() && (#[trigger] added[k]).0 == address;
            let is_wanted = exists|i: int|
                0 <= i < members.len() && group::resolved_device(devices, #[trigger] members[i])
                    == Some(address);
            &&& leaves <==> was && !is_wanted
            &&& joins <==> is_wanted && !was
        }),
{
    let wanted = group::wanted_members(devices, members, Some(path))->Ok_0;
    let now = group::member_addresses(current);
    wanted_members_are_resolved(devices, members, path, address);
    group::removals_are_unwanted(now, wanted, address);
    group::additions_are_missing(now, wanted, address);
    if now.contains(address) {
        let i = choose|i: int| 0 <= i < now.len() && now[i] == address;
        assert(current[i].ieee_address@ == address);
    }
    if exists|i: int| 0 <= i < current.len() && (#[trigger] current[i]).ieee_address@ == address {
        let i = choose|i: int|
            0 <= i < current.len() && (#[trigger] current[i]).ieee_address@ == address;
        assert(now[i] == address);
    }
    let removed = group::removals(now, wanted);
    if removed.contains(address) {
        let k = choose|k: int| 0 <= k < removed.len() && removed[k] == address;
        assert(removed[k] == address);
    }
    if group::has_address(wanted, address) {
        let k = choose|k: int| 0 <= k < wanted.len() && (#[trigger] wanted[k]).0 == address;
        assert(wanted[k].0 == address);
    }
    let added = group::additions(now, wanted);
    if group::has_address(added, address) {
        let k = choose|k: int| 0 <= k < added.len() && (#[trigger] added[k]).0 == address;
        assert(added[k].0 == address);
    }
}

/// No device is removed twice.
pub proof fn members_are_removed_once(
    current: Seq<Seq<char>>,
    wanted: Seq<(Seq<char>, Option<Seq<char>>)>,
)
    ensures
        forall|j: int, k: int|
            0 <= j < k < group::removals(current, wanted).len() ==> #[trigger] group::removals(
                current,
                wanted,
            )[j] != #[trigger] group::removals(current, wanted)[k],
    decreases current.len(),
{
    if current.len() > 0 {
        let front = current.drop_last();
        members_are_removed_once(front, wanted);
        let before = group::removals(front, wanted);
        let after = group::removals(current, wanted);
        assert forall|j: int, k: int| 0 <= j < k < after.len() implies #[trigger] after[j]
            != #[trigger] after[k] by {
            assert(after[j] == before[j]);
            if k < before.len() {
                assert(after[k] == before[k]);
            } else {
                assert(before.contains(before[j]));
            }
        }
    }
}

/// No device is wanted twice, so that none is added twice.
pub proof fn members_are_wanted_once(
    devices: Seq<BridgeDevice>,
    members: Seq<Seq<char>>,
    path: Option<Seq<char>>,
)
    ensures
        group::wanted_members(devices, members, path) matches Ok(list) ==> forall|j: int, k: int|
            0 <= j < k < list.len() ==> (#[trigger] list[j]).0 != (#[trigger] list[k]).0,
    decreases members.len(),
{
    if members.len() > 0 {
        let front = members.drop_last();
        members_are_wanted_once(devices, front, path);
        if let Ok(list) = group::wanted_members(devices, members, path) {
            let before = group::wanted_members(devices, front, path)->Ok_0;
            assert forall|j: int, k: int| 0 <= j < k < list.len() implies (#[trigger] list[j]).0
                != (#[trigger] list[k]).0 by {
                assert(list[j] == before[j]);
                if k < before.len() {
                    assert(list[k] == before[k]);
                }
            }
        }
    }
}

/// What is done about a member says which device it is about: it is removed without a source, or added
/// with the source that it is listed at, and announced at the list or at that source.
pub proof fn member_changes_are_announced(address: Seq<char>, source: Option<Seq<char>>)
    ensures
        group::removal(address).address == address,
        group::removal(address).source is None,
        group::removal(address).event.type_ == EventType::Normal,
        group::removal(address).event.field_path == Some("spec.members"@),
        group::removal(address).event.note == Some("removing device "@ + address + " from group"@),
        group::addition((address, source)).address == address,
        group::addition((address, source)).source == source,
        group::addition((address, source)).event.type_ == EventType::Normal,
        group::addition((address, source)).event.field_path == source,
        group::addition((address, source)).event.note == Some(
            "adding device "@ + address + " to group"@,
        ),
{
}

/// The number of a group is the one of its status, whatever else the status holds, and otherwise the
/// one that is asked for.
pub proof fn group_numbers_come_from_the_status(resource: Group)
    ensures
        resource.status is Some && resource.status->0.id is Some ==> group::group_id(resource)
            == Some((resource.status->0.id->0, "status.id"@)),
        !(resource.status is Some && resource.status->0.id is Some) && resource.spec.id is Some
            ==> group::group_id(resource) == Some((resource.spec.id->0, "spec.id"@)),
        group::group_id(resource) is None <==> !(resource.status is Some
            && resource.status->0.id is Some) && resource.spec.id is None,
{
}

/// How the status of a group reflects the progress of a reconciliation: it counts as missing until it
/// is found, as out of sync until all has been done, and its number is known from when it is found.
pub proof fn group_status_follows_progress(status: GroupStatus, progress: GroupProgress)
    ensures
        ({
            let after = group::group_progress(status, progress);
            &&& after.exists == Some(true) <==> progress is Exists || progress is Synced
                && status.exists == Some(true)
            &&& progress is Connected ==> after.exists == Some(false)
            &&& progress is Started ==> after.exists is None && after.synced is None
                && after.id is None
            &&& after.synced == Some(true) <==> progress is Synced || progress is Connected
                && status.synced == Some(true)
            &&& progress is Exists ==> after.synced == Some(false) && after.id == Some(
                progress->Exists_0,
            )
            &&& progress is Connected || progress is Synced ==> after.id == status.id
            &&& progress is Synced ==> after.exists == status.exists
            &&& progress is Connected ==> after.synced == status.synced
        }),
{
}

/// How the status of a device reflects the progress of a reconciliation.
pub proof fn device_status_follows_progress(status: DeviceStatus, progress: DeviceProgress)
    ensures
        ({
            let after = device::device_progress(status, progress);
            &&& after.exists == Some(true) <==> progress is Exists || progress is Synced
                && status.exists == Some(true)
            &&& progress is Connected ==> after.exists == Some(false)
            &&& progress is Started ==> after.exists is None && after.synced is None
            &&& after.synced == Some(true) <==> progress is Synced || progress is Connected
                && status.synced == Some(true)
            &&& progress is Exists ==> after.synced == Some(false)
            &&& progress is Synced ==> after.exists == status.exists
            &&& progress is Connected ==> after.synced == status.synced
        }),
{
}

/// A device is to have the name that is asked for, or its address if none is.
pub proof fn devices_are_named(resource: Device)
    ensures
        resource.spec.friendly_name is Some ==> device::wanted_device_name(resource) == (
            resource.spec.friendly_name->0@,
            "spec.friendly_name"@,
        ),
        resource.spec.friendly_name is None ==> device::wanted_device_name(resource) == (
            resource.spec.ieee_address@,
            "spec.ieee_address"@,
        ),
{
}

/// Without a connection, be it inactive, closed, failed or refused, there is no broker, and nothing is
/// known about Zigbee2MQTT, whatever the status was before.
pub proof fn lost_connections_clear_the_status(status: InstanceStatus, report: ConnectionStatus)
    requires
        report is Inactive || report is Closed || report is Failed || report is Refused,
    ensures
        ({
            let after = instance::reported_status(status, Status::ConnectionStatus(report));
            !after.broker && after.zigbee2mqtt is None
        }),
{
}

/// What reports say about an instance: there is a broker once the connection is active or Zigbee2MQTT
/// is healthy, until the connection is lost. Zigbee2MQTT is only reachable after it was healthy, and
/// until anything else but the start of a connection is reported.
pub proof fn reports_are_reflected(status: InstanceStatus, report: Status)
    ensures
        ({
            let after = instance::reported_status(status, report);
            let lost = report is ConnectionStatus && !(report->ConnectionStatus_0 is Active)
                && !(report->ConnectionStatus_0 is Pending);
            let active = report is ConnectionStatus && report->ConnectionStatus_0 is Active;
            let pending = report is ConnectionStatus && report->ConnectionStatus_0 is Pending;
            let healthy = report is Z2MStatus && report->Z2MStatus_0 is HealthOk;
            let unhealthy = report is Z2MStatus && report->Z2MStatus_0 is HealthError;
            &&& after.broker <==> active || healthy || !lost && status.broker
            &&& after.zigbee2mqtt == Some(true) <==> healthy || pending && status.zigbee2mqtt
                == Some(true)
            &&& after.zigbee2mqtt is None <==> lost || pending && status.zigbee2mqtt is None
            &&& active || unhealthy ==> after.zigbee2mqtt == Some(false)
        }),
{
}

/// Where Zigbee2MQTT counts as not reachable without a report about its health, a lost connection
/// makes it so, and an active one leaves it as it was.
pub proof fn plain_reports_are_reflected(status: InstanceStatus, report: Status)
    ensures
        ({
            let after = crate::instance::reported_plainly(status, report);
            let lost = report is ConnectionStatus && !(report->ConnectionStatus_0 is Active)
                && !(report->ConnectionStatus_0 is Pending);
            let active = report is ConnectionStatus && report->ConnectionStatus_0 is Active;
            let pending = report is ConnectionStatus && report->ConnectionStatus_0 is Pending;
            let healthy = report is Z2MStatus && report->Z2MStatus_0 is HealthOk;
            let unhealthy = report is Z2MStatus && report->Z2MStatus_0 is HealthError;
            &&& after.broker <==> active || healthy || !lost && status.broker
            &&& lost || unhealthy ==> after.zigbee2mqtt == Some(false)
            &&& healthy ==> after.zigbee2mqtt == Some(true)
            &&& active || pending ==> after.zigbee2mqtt == status.zigbee2mqtt
        }),
{
}

/// A manager is kept if it has taken over the options, whether they changed or not, and replaced if it
/// hasn't. Without one, one is created.
pub proof fn failed_updates_replace_the_manager<M>(manager: M, changed: bool, error: Error)
    ensures
        instance::setup_step(Some((manager, Ok::<bool, Error>(changed)))) == SetupStep::Keep(
            manager,
        ),
        instance::setup_step(Some((manager, Err::<bool, Error>(error)))) == SetupStep::Replace(
            manager,
        ),
        instance::setup_step(None::<(M, Result<bool, Error>)>) is Create,
{
}

/// The identifier of a group resource is the number that its status holds, whatever else it holds, and
/// a resource has none if and only if its status holds no number.
pub proof fn groups_are_identified_by_their_status(resource: Group, id: usize)
    ensures
        resource.status is Some && resource.status->0.id == Some(id) ==> resource.identifier()
            == Some(text::decimal(id as nat)),
        resource.identifier() is None <==> resource.status is None || resource.status->0.id is None,
{
}

/// The identifier of a device resource is the address that it gives.
pub proof fn devices_are_identified_by_their_address(resource: Device)
    ensures
        resource.identifier() == Some(resource.spec.ieee_address@),
{
}

/// What Zigbee2MQTT knows is identified by its address, or by its number, and called by its name.
pub proof fn known_devices_and_groups_are_identified(device: BridgeDevice, group: BridgeGroup)
    ensures
        <Device as ManagedResource>::identity(device) == (
            device.ieee_address@,
            device.friendly_name@,
        ),
        <Group as ManagedResource>::identity(group) == (
            text::decimal(group.id as nat),
            group.friendly_name@,
        ),
{
}

/// What is done with devices and groups that aren't managed is what the instance says for each.
pub proof fn instances_say_what_is_done(resource: Instance)
    ensures
        <Device as ManagedResource>::mode(resource) == resource.spec.unmanaged_devices,
        <Group as ManagedResource>::mode(resource) == resource.spec.unmanaged_groups,
{
}

/// A resource belongs to the instance that it names, in its own namespace.
pub proof fn resources_belong_to_instances(
    device: Device,
    group: Group,
    namespace: String,
    full_name: Seq<char>,
)
    ensures
        instance::belongs_to((device, Some(namespace)), full_name) <==> full_name == namespace@
            + "/"@ + device.spec.instance@,
        instance::belongs_to((group, Some(namespace)), full_name) <==> full_name == namespace@
            + "/"@ + group.spec.instance@,
        instance::belongs_to((device, None), full_name) <==> full_name == device.spec.instance@,
        instance::belongs_to((group, None), full_name) <==> full_name == group.spec.instance@,
{
}

/// What a resource of the instance identifies is never reported or deleted.
pub proof fn managed_resources_are_left_alone<T: ManagedResource>(
    found: Seq<Unmanaged>,
    mode: InstanceHandleUnmanaged,
    full_name: Seq<char>,
    resources: Seq<(T, Option<String>)>,
    known: Seq<T::Known>,
    i: int,
    k: int,
)
    requires
        instance::handles_unmanaged(
            found,
            mode,
            T::kind_name(),
            instance::identities::<T>(known),
            instance::managed_identifiers(full_name, resources),
        ),
        0 <= i < resources.len(),
        instance::belongs_to(resources[i], full_name),
        0 <= k < known.len(),
        resources[i].0.identifier() == Some(T::identity(known[k]).0),
    ensures
        forall|n: int| 0 <= n < found.len() ==> (#[trigger] found[n]).index != k,
{
    let all = instance::identities::<T>(known);
    let managed = instance::managed_identifiers(full_name, resources);
    instance::managed_are_of_the_instance(full_name, resources, all[k].0);
    assert(managed.contains(all[k].0));
    let expected = instance::unmanaged_indices(all, managed);
    instance::unmanaged_are_reported(all, managed, k);
    assert forall|n: int| 0 <= n < found.len() implies (#[trigger] found[n]).index != k by {
        if mode != InstanceHandleUnmanaged::Ignore && found[n].index == k {
            assert(expected[n] == k);
            assert(expected.contains(k));
        }
    }
}

/// What no resource of the instance identifies is reported once, unless this is to be ignored, and is
/// deleted if and only if the instance says so.
pub proof fn other_resources_are_reported<T: ManagedResource>(
    found: Seq<Unmanaged>,
    mode: InstanceHandleUnmanaged,
    full_name: Seq<char>,
    resources: Seq<(T, Option<String>)>,
    known: Seq<T::Known>,
    k: int,
)
    requires
        instance::handles_unmanaged(
            found,
            mode,
            T::kind_name(),
            instance::identities::<T>(known),
            instance::managed_identifiers(full_name, resources),
        ),
        0 <= k < known.len(),
        forall|i: int|
            0 <= i < resources.len() && instance::belongs_to(#[trigger] resources[i], full_name)
                ==> resources[i].0.identifier() != Some(T::identity(known[k]).0),
    ensures
        mode == InstanceHandleUnmanaged::Ignore ==> found.len() == 0,
        mode != InstanceHandleUnmanaged::Ignore ==> exists|n: int|
            0 <= n < found.len() && (#[trigger] found[n]).index == k && found[n].delete == (mode
                == InstanceHandleUnmanaged::Delete) && found[n].event@.type_ == EventType::Warning,
        forall|m: int, n: int|
            0 <= m < n < found.len() ==> (#[trigger] found[m]).index < (#[trigger] found[n]).index,
{
    let all = instance::identities::<T>(known);
    let managed = instance::managed_identifiers(full_name, resources);
    instance::managed_are_of_the_instance(full_name, resources, all[k].0);
    assert(all[k] == T::identity(known[k]));
    assert(!managed.contains(all[k].0));
    let expected = instance::unmanaged_indices(all, managed);
    instance::unmanaged_are_reported(all, managed, k);
    instance::unmanaged_are_reported_once(all, managed);
    if mode != InstanceHandleUnmanaged::Ignore {
        let n = choose|n: int| 0 <= n < expected.len() && expected[n] == k;
        assert(found[n].index == k);
        assert forall|m: int, n: int| 0 <= m < n < found.len() implies (#[trigger] found[m]).index
            < (#[trigger] found[n]).index by {
            assert(expected[m] < expected[n]);
        }
    }
}

/// Each wanted device has the source of the first name that resolves to it.
pub proof fn wanted_members_have_their_sources(
    devices: Seq<BridgeDevice>,
    members: Seq<Seq<char>>,
    path: Seq<char>,
    k: int,
)
    requires
        group::wanted_members(devices, members, Some(path)) is Ok,
        0 <= k < group::wanted_members(devices, members, Some(path))->Ok_0.len(),
    ensures
        ({
            let (address, source) = group::wanted_members(devices, members, Some(path))->Ok_0[k];
            exists|i: int|
                0 <= i < members.len() && group::resolved_device(devices, #[trigger] members[i])
                    == Some(address) && source == Some(path + "["@ + text::decimal(i as nat) + "]"@)
                    && forall|j: int|
                    0 <= j < i ==> group::resolved_device(devices, #[trigger] members[j]) != Some(
                        address,
                    )
        }),
    decreases members.len(),
{
    let front = members.drop_last();
    let last = members.len() - 1;
    assert(members[last] == members.last());
    let list = group::wanted_members(devices, front, Some(path))->Ok_0;
    let all = group::wanted_members(devices, members, Some(path))->Ok_0;
    let (address, source) = all[k];
    if k < list.len() {
        wanted_members_have_their_sources(devices, front, path, k);
        assert(all[k] == list[k]);
        let i = choose|i: int|
            0 <= i < front.len() && group::resolved_device(devices, #[trigger] front[i]) == Some(
                address,
            ) && source == Some(path + "["@ + text::decimal(i as nat) + "]"@) && forall|j: int|
                0 <= j < i ==> group::resolved_device(devices, #[trigger] front[j]) != Some(
                    address,
                );
        assert(members[i] == front[i]);
        assert forall|j: int| 0 <= j < i implies group::resolved_device(
            devices,
            #[trigger] members[j],
        ) != Some(address) by {
            assert(front[j] == members[j]);
        }
    } else {
        wanted_members_are_resolved(devices, front, path, address);
        assert forall|j: int| 0 <= j < last implies group::resolved_device(
            devices,
            #[trigger] members[j],
        ) != Some(address) by {
            if group::resolved_device(devices, members[j]) == Some(address) {
                assert(front[j] == members[j]);
                let n = choose|n: int| 0 <= n < list.len() && (#[trigger] list[n]).0 == address;
                assert(list[n].0 == address);
                assert(group::has_address(list, address));
            }
        }
    }
}

/// Members are added as they are wanted, with the source that is known for them.
pub proof fn members_are_added_as_wanted(
    current: Seq<Seq<char>>,
    wanted: Seq<(Seq<char>, Option<Seq<char>>)>,
    member: (Seq<char>, Option<Seq<char>>),
)
    ensures
        group::additions(current, wanted).contains(member) <==> wanted.contains(member)
            && !current.contains(member.0),
    decreases wanted.len(),
{
    if wanted.len() > 0 {
        let front = wanted.drop_last();
        members_are_added_as_wanted(current, front, member);
        let before = group::additions(current, front);
        let after = group::additions(current, wanted);
        assert(wanted =~= front.push(wanted.last()));
        if after.contains(member) {
            let k = choose|k: int| 0 <= k < after.len() && after[k] == member;
            if k < before.len() {
                assert(before[k] == member);
                let i = choose|i: int| 0 <= i < front.len() && front[i] == member;
                assert(wanted[i] == member);
            } else {
                assert(wanted[wanted.len() - 1] == member);
            }
        }
        if wanted.contains(member) && !current.contains(member.0) {
            let i = choose|i: int| 0 <= i < wanted.len() && wanted[i] == member;
            if i < front.len() {
                assert(front[i] == member);
                let k = choose|k: int| 0 <= k < before.len() && before[k] == member;
                assert(after[k] == member);
            } else {
                assert(after[before.len() as int] == member);
            }
        }
    }
}

/// The report about a device or a group that isn't managed says what kind it is, names it, and says
/// whether it is deleted.
pub proof fn reports_name_what_is_found(
    kind: Seq<char>,
    id: Seq<char>,
    name: Seq<char>,
    mode: InstanceHandleUnmanaged,
)
    ensures
        instance::unmanaged_note(kind, id, name, mode) == "Zigbee2MQTT has "@ + kind + " "@ + id
            + " (name '"@ + name + "') which is not defined in K8s"@ + (if mode is Delete {
            ", deleting"@
        } else {
            ""@
        }) + "."@,
        <Device as ManagedResource>::kind_name() == "Device"@,
        <Group as ManagedResource>::kind_name() == "Group"@,
{
}

/// The message about a member that isn't known names it.
pub proof fn unknown_members_are_named(name: Seq<char>)
    ensures
        group::unknown_member(name) == "cannot find device with ieee_address or friendly_name '"@
            + name + "'"@,
{
}

/// Two groups are the same if and only if their numbers, names and members are.
pub proof fn groups_are_compared_in_full(a: BridgeGroup, b: BridgeGroup)
    ensures
        group::same_group(a, b) <==> a.id == b.id && a.friendly_name@ == b.friendly_name@
            && a.members@ == b.members@,
{
}

} // verus!
