//! Reconcile logic for [`Group`].

use vstd::prelude::*;

use crate::crds::{Group, GroupStatus};
use crate::error;
use crate::error::{Error, ErrorWithMeta};
use crate::event_manager;
use crate::event_manager::{EventCore, EventType};
use crate::mqtt::handlers::device::BridgeDevice;
use crate::mqtt::handlers::group;
use crate::mqtt::handlers::group::{BridgeGroup, BridgeGroupMember, BridgeGroupsTracker};
use crate::mqtt::handlers::lib::Configuration;
use crate::text;
use crate::with_source;
use crate::with_source::ValueWithSource;

verus! {

/// A group, with what is known about the source of its number.
#[derive(Debug)]
pub struct BridgeGroupInfo {
    /// The number of the group.
    pub id: ValueWithSource<usize>,
    /// The group.
    pub info: BridgeGroup,
}

/// Whether two groups are the same.
pub open spec fn same_group(a: BridgeGroup, b: BridgeGroup) -> bool {
    &&& a.id == b.id
    &&& a.friendly_name@ == b.friendly_name@
    &&& a.members@ == b.members@
}

/// How far the reconciliation of a group has come.
#[derive(Clone, Copy, Debug, PartialEq, Eq, Structural)]
pub enum GroupProgress {
    /// It has started.
    Started,
    /// The instance is ready.
    Connected,
    /// The group with the given number exists.
    Exists(usize),
    /// The group is in the desired state.
    Synced,
}

/// The status of a group after the reconciliation has come this far.
pub open spec fn group_progress(status: GroupStatus, progress: GroupProgress) -> GroupStatus {
    match progress {
        GroupProgress::Started => GroupStatus { exists: None, synced: None, id: None },
        GroupProgress::Connected => GroupStatus { exists: Some(false), ..status },
        GroupProgress::Exists(id) => GroupStatus {
            exists: Some(true),
            id: Some(id),
            synced: Some(false),
        },
        GroupProgress::Synced => GroupStatus { synced: Some(true), ..status },
    }
}

/// See [`group_progress`].
pub fn advance_group_status(status: GroupStatus, progress: GroupProgress) -> (r: GroupStatus)
    ensures
        r == group_progress(status, progress),
{
    match progress {
        GroupProgress::Started => GroupStatus { exists: None, synced: None, id: None },
        GroupProgress::Connected => GroupStatus { exists: Some(false), ..status },
        GroupProgress::Exists(id) => GroupStatus {
            exists: Some(true),
            id: Some(id),
            synced: Some(false),
        },
        GroupProgress::Synced => GroupStatus { synced: Some(true), ..status },
    }
}

/// The number of a group, with its source: the one of the status, or else the one of the spec.
pub open spec fn group_id(group: Group) -> Option<(usize, Seq<char>)> {
    match (group.status, group.spec.id) {
        (Some(GroupStatus { id: Some(id), .. }), _) => Some((id, "status.id"@)),
        (_, Some(id)) => Some((id, "spec.id"@)),
        _ => None,
    }
}

impl Group {
    /// Get the number of the group, if it is known.
    pub fn get_id(&self) -> (r: Option<ValueWithSource<usize>>)
        ensures
            match (r, group_id(*self)) {
                (Some(id), Some((n, source))) => id.inner() == n && id.path() == Some(source),
                (None, None) => true,
                _ => false,
            },
    {
        if let Some(status) = &self.status {
            if let Some(id) = status.id {
                return Some(ValueWithSource::new(id, Some("status.id".to_owned())));
            }
        }
        match self.spec.id {
            Some(id) => Some(ValueWithSource::new(id, Some("spec.id".to_owned()))),
            None => None,
        }
    }

    /// The number that the group is to have, if one is given.
    pub fn wanted_id(&self) -> (r: ValueWithSource<Option<usize>>)
        ensures
            r.inner() == self.spec.id,
            r.path() == Some("spec.id"@),
    {
        ValueWithSource::new(self.spec.id, Some("spec.id".to_owned()))
    }

    /// The name that the group is to have.
    pub fn wanted_name(&self) -> (r: ValueWithSource<String>)
        ensures
            r.inner()@ == self.spec.friendly_name@,
            r.path() == Some("spec.friendly_name"@),
    {
        ValueWithSource::new(
            self.spec.friendly_name.clone(),
            Some("spec.friendly_name".to_owned()),
        )
    }

    /// Look for the group by its number, if it is known.
    pub fn find_by_id(&self, groups: &Vec<BridgeGroup>) -> (r: Option<BridgeGroupInfo>)
        ensures
            match group_id(*self) {
                Some((id, source)) => match (r, group::group_with_id(groups@, id)) {
                    (Some(found), Some(i)) => {
                        &&& same_group(found.info, groups@[i])
                        &&& found.id.inner() == id
                        &&& found.id.path() == Some(source)
                    },
                    (None, None) => true,
                    _ => false,
                },
                None => r is None,
            },
    {
        match self.get_id() {
            Some(id) => match BridgeGroupsTracker::get_by_id(groups, *id.value()) {
                Some(i) => Some(BridgeGroupInfo { id, info: groups[i].clone() }),
                None => None,
            },
            None => None,
        }
    }

    /// Look for the group by its name, which is done only if no number is given for it.
    pub fn find_by_name(&self, groups: &Vec<BridgeGroup>) -> (r: Option<BridgeGroupInfo>)
        ensures
            match (r, group::group_with_name(groups@, self.spec.friendly_name@)) {
                (Some(found), Some(i)) => {
                    &&& self.spec.id is None
                    &&& same_group(found.info, groups@[i])
                    &&& found.id.inner() == groups@[i].id
                    &&& found.id.path() == Some("status.id"@)
                },
                (None, Some(_)) => self.spec.id is Some,
                (None, None) => true,
                (Some(_), None) => false,
            },
    {
        if self.spec.id.is_some() {
            return None;
        }
        match BridgeGroupsTracker::get_by_friendly_name(
            groups,
            self.spec.friendly_name.as_str(),
        ) {
            Some(i) => {
                let info = groups[i].clone();
                let id = ValueWithSource::new(info.id, Some("status.id".to_owned()));
                Some(BridgeGroupInfo { id, info })
            },
            None => None,
        }
    }

    /// Look for the group: by its number if it is known, or else by its name if no number is given for
    /// it. If it isn't found it has to be created.
    pub fn find_existing(&self, groups: &Vec<BridgeGroup>) -> (r: Option<BridgeGroupInfo>)
        ensures
            ({
                let by_id = match group_id(*self) {
                    Some((id, _)) => group::group_with_id(groups@, id),
                    None => None,
                };
                let by_name = if self.spec.id is None {
                    group::group_with_name(groups@, self.spec.friendly_name@)
                } else {
                    None
                };
                match (r, by_id, by_name) {
                    (Some(found), Some(i), _) => {
                        &&& same_group(found.info, groups@[i])
                        &&& group_id(*self) == Some((found.id.inner(), found.id.path()->0))
                        &&& found.id.path() is Some
                    },
                    (Some(found), None, Some(i)) => {
                        &&& same_group(found.info, groups@[i])
                        &&& found.id.inner() == groups@[i].id
                        &&& found.id.path() == Some("status.id"@)
                    },
                    (None, None, None) => true,
                    _ => false,
                }
            }),
    {
        match self.find_by_id(groups) {
            Some(found) => Some(found),
            None => self.find_by_name(groups),
        }
    }

    /// Look for the group after it has been created with the given number.
    pub fn find_created(groups: &Vec<BridgeGroup>, id: usize) -> (r: Result<
        BridgeGroupInfo,
        ErrorWithMeta,
    >)
        ensures
            match (r, group::group_with_id(groups@, id)) {
                (Ok(found), Some(i)) => {
                    &&& same_group(found.info, groups@[i])
                    &&& found.id.inner() == groups@[i].id
                    &&& found.id.path() == Some("status.id"@)
                },
                (Err(e), None) => e@ == (error::ErrorWithMetaModel {
                    error: error::ErrorModel::ActionFailed("failed to find or create group"@, None),
                    source: None,
                    published: false,
                }),
                _ => false,
            },
    {
        match BridgeGroupsTracker::get_by_id(groups, id) {
            Some(i) => {
                let info = groups[i].clone();
                let id = ValueWithSource::new(info.id, Some("status.id".to_owned()));
                Ok(BridgeGroupInfo { id, info })
            },
            None => Err(
                Error::ActionFailed(
                    "failed to find or create group".to_owned(),
                    None,
                ).unknown_cause(),
            ),
        }
    }

    /// The event about a group that has to be deleted and created again, as its number is to be
    /// another one; none if its number is right.
    pub fn sync_existence(&self, current: usize) -> (r: Option<EventCore>)
        ensures
            match self.spec.id {
                Some(id) => if id != current {
                    r matches Some(event) && event@ == (event_manager::EventCoreModel {
                        action: "Reconciling"@,
                        note: Some("id changed, deleting and recreating group"@),
                        reason: "Changed"@,
                        type_: EventType::Normal,
                        field_path: Some("spec.id"@),
                    })
                } else {
                    r is None
                },
                None => r is None,
            },
    {
        match self.spec.id {
            Some(id) => if id != current {
                Some(
                    EventCore {
                        action: "Reconciling".to_owned(),
                        note: Some("id changed, deleting and recreating group".to_owned()),
                        reason: "Changed".to_owned(),
                        type_: EventType::Normal,
                        field_path: Some("spec.id".to_owned()),
                    },
                )
            } else {
                None
            },
            None => None,
        }
    }

    /// The name that the group has to be given; none if its name is right.
    pub fn sync_name(&self, info: &BridgeGroup) -> (r: Option<ValueWithSource<String>>)
        ensures
            r is None <==> info.friendly_name@ == self.spec.friendly_name@,
            r matches Some(name) ==> name.inner()@ == self.spec.friendly_name@ && name.path()
                == Some("spec.friendly_name"@),
    {
        if text::same_text(info.friendly_name.as_str(), self.spec.friendly_name.as_str()) {
            None
        } else {
            Some(self.wanted_name())
        }
    }

    /// The options that the group is to have, if they are managed.
    pub fn wanted_options(&self) -> (r: Option<ValueWithSource<Configuration>>)
        ensures
            match (r, self.spec.options) {
                (Some(options), Some(wanted)) => options.inner()@ == wanted@ && options.path()
                    == Some("spec.options"@),
                (None, None) => true,
                _ => false,
            },
    {
        match &self.spec.options {
            Some(options) => Some(
                ValueWithSource::new(options.clone(), Some("spec.options".to_owned())),
            ),
            None => None,
        }
    }

    /// The number of the group that has to be deleted when the resource is deleted.
    pub fn cleanup(&self) -> (r: Option<ValueWithSource<usize>>)
        ensures
            match self.status {
                Some(GroupStatus { id: Some(id), .. }) => r matches Some(v) && v.inner() == id
                    && v.path() == Some("status.id"@),
                _ => r is None,
            },
    {
        match &self.status {
            Some(status) => match status.id {
                Some(id) => Some(ValueWithSource::new(id, Some("status.id".to_owned()))),
                None => None,
            },
            None => None,
        }
    }
}

/// The address of the device with the given address or name. The last one counts if there are
/// several.
pub open spec fn resolved_device(devices: Seq<BridgeDevice>, name: Seq<char>) -> Option<Seq<char>>
    decreases devices.len(),
{
    if devices.len() == 0 {
        None
    } else if devices.last().friendly_name@ == name || devices.last().ieee_address@ == name {
        Some(devices.last().ieee_address@)
    } else {
        resolved_device(devices.drop_last(), name)
    }
}

fn resolve_device<'a>(devices: &'a Vec<BridgeDevice>, name: &str) -> (r: Option<&'a String>)
    ensures
        match r {
            Some(address) => resolved_device(devices@, name@) == Some(address@),
            None => resolved_device(devices@, name@) is None,
        },
{
    let mut n: usize = devices.len();
    proof {
        assert(devices@.take(n as int) =~= devices@);
    }
    while n > 0
        invariant
            n <= devices@.len(),
            resolved_device(devices@, name@) == resolved_device(devices@.take(n as int), name@),
        decreases n,
    {
        let device = &devices[n - 1];
        proof {
            assert(devices@.take(n as int).last() == devices@[n - 1]);
            assert(devices@.take(n as int).drop_last() =~= devices@.take(n - 1));
        }
        if text::same_text(device.friendly_name.as_str(), name) || text::same_text(
            device.ieee_address.as_str(),
            name,
        ) {
            return Some(&device.ieee_address);
        }
        n = n - 1;
    }
    None
}

/// Whether a list has an address.
pub open spec fn has_address(
    list: Seq<(Seq<char>, Option<Seq<char>>)>,
    address: Seq<char>,
) -> bool {
    exists|i: int| 0 <= i < list.len() && (#[trigger] list[i]).0 == address
}

/// The message about a member that isn't known.
pub open spec fn unknown_member(name: Seq<char>) -> Seq<char> {
    "cannot find device with ieee_address or friendly_name '"@ + name + "'"@
}

/// The addresses of the wanted members with their sources, each of them once, or the name and the
/// source of the first one that isn't known.
pub open spec fn wanted_members(
    devices: Seq<BridgeDevice>,
    members: Seq<Seq<char>>,
    path: Option<Seq<char>>,
) -> Result<Seq<(Seq<char>, Option<Seq<char>>)>, (Seq<char>, Option<Seq<char>>)>
    decreases members.len(),
{
    if members.len() == 0 {
        Ok(Seq::empty())
    } else {
        let source = with_source::item_path(path, (members.len() - 1) as nat);
        match (
            wanted_members(devices, members.drop_last(), path),
            resolved_device(devices, members.last()),
        ) {
            (Err(failure), _) => Err(failure),
            (Ok(_), None) => Err((members.last(), source)),
            (Ok(list), Some(address)) => if has_address(list, address) {
                Ok(list)
            } else {
                Ok(list.push((address, source)))
            },
        }
    }
}

/// The addresses of members with their sources.
pub open spec fn member_models(list: Seq<ValueWithSource<String>>) -> Seq<
    (Seq<char>, Option<Seq<char>>),
> {
    list.map_values(|member: ValueWithSource<String>| (member.inner()@, member.path()))
}

fn lists_address(list: &Vec<ValueWithSource<String>>, address: &str) -> (r: bool)
    ensures
        r == has_address(member_models(list@), address@),
{
    for i in 0..list.len()
        invariant
            forall|j: int|
                0 <= j < i ==> (#[trigger] member_models(list@)[j]).0 != address@,
    {
        if text::same_text(list[i].value().as_str(), address) {
            proof {
                assert(member_models(list@)[i as int].0 == address@);
            }
            return true;
        }
    }
    false
}

proof fn lemma_members_error(
    devices: Seq<BridgeDevice>,
    members: Seq<Seq<char>>,
    path: Option<Seq<char>>,
    n: int,
)
    requires
        0 <= n <= members.len(),
        wanted_members(devices, members.take(n), path) is Err,
    ensures
        wanted_members(devices, members, path) == wanted_members(devices, members.take(n), path),
    decreases members.len(),
{
    if n == members.len() {
        assert(members.take(n) =~= members);
    } else {
        assert(members.drop_last().take(n) =~= members.take(n));
        lemma_members_error(devices, members.drop_last(), path, n);
    }
}

fn find_wanted_members(devices: &Vec<BridgeDevice>, members: ValueWithSource<Vec<String>>) -> (r:
    Result<Vec<ValueWithSource<String>>, ErrorWithMeta>)
    ensures
        match (
            r,
            wanted_members(devices@, text::texts(members.inner()@), members.path()),
        ) {
            (Ok(list), Ok(expected)) => member_models(list@) == expected,
            (Err(e), Err((name, source))) => e@ == (error::ErrorWithMetaModel {
                error: error::ErrorModel::ActionFailed(unknown_member(name), None),
                source,
                published: false,
            }),
            _ => false,
        },
{
    let ghost names = text::texts(members.inner()@);
    let ghost path = members.path();
    let mut iterator = members.into_iter();
    let mut list: Vec<ValueWithSource<String>> = Vec::new();
    proof {
        assert(names.take(0) =~= Seq::empty());
        assert(member_models(list@) =~= Seq::empty());
        assert(text::texts(iterator.rest()) =~= names.skip(0));
    }
    loop
        invariant
            names == text::texts(members.inner()@),
            path == members.path(),
            iterator.path() == path,
            iterator.position() <= names.len(),
            text::texts(iterator.rest()) == names.skip(iterator.position() as int),
            wanted_members(devices@, names.take(iterator.position() as int), path) == Ok::<
                Seq<(Seq<char>, Option<Seq<char>>)>,
                (Seq<char>, Option<Seq<char>>),
            >(member_models(list@)),
        ensures
            wanted_members(devices@, names, path) == Ok::<
                Seq<(Seq<char>, Option<Seq<char>>)>,
                (Seq<char>, Option<Seq<char>>),
            >(member_models(list@)),
        decreases iterator.rest().len(),
    {
        let ghost at = iterator.position() as int;
        let ghost before = iterator.rest();
        let ghost made = list@;
        match iterator.next() {
            None => {
                proof {
                    assert(text::texts(before).len() == 0);
                    assert(names.take(at) =~= names);
                }
                break;
            },
            Some(member) => {
                proof {
                    assert(text::texts(before).len() == before.len());
                    assert(names.skip(at).len() == names.len() - at);
                    assert(text::texts(before)[0] == names.skip(at)[0]);
                    assert(names.take(at + 1).drop_last() =~= names.take(at));
                    assert(names.take(at + 1).last() == names[at]);
                    assert forall|k: int| 0 <= k < iterator.rest().len() implies text::texts(
                        iterator.rest(),
                    )[k] == names.skip(at + 1)[k] by {
                        assert(iterator.rest()[k] == before[k + 1]);
                        assert(text::texts(before)[k + 1] == names.skip(at)[k + 1]);
                    }
                    assert(text::texts(iterator.rest()) =~= names.skip(at + 1));
                }
                match resolve_device(devices, member.value().as_str()) {
                    Some(address) => {
                        if !lists_address(&list, address.as_str()) {
                            let wanted = member.with_value(address.clone());
                            let ghost shown = (wanted.inner()@, wanted.path());
                            list.push(wanted);
                            proof {
                                assert(member_models(list@) =~= member_models(made).push(shown));
                            }
                        }
                    },
                    None => {
                        proof {
                            lemma_members_error(devices@, names, path, at + 1);
                        }
                        let message =
                            "cannot find device with ieee_address or friendly_name '".to_owned().concat(
                        member.value().as_str()).concat("'");
                        return Err(Error::ActionFailed(message, None).caused_by(&member));
                    },
                }
            },
        }
    }
    Ok(list)
}

/// The addresses that have to be removed, each of them once.
pub open spec fn removals(
    current: Seq<Seq<char>>,
    wanted: Seq<(Seq<char>, Option<Seq<char>>)>,
) -> Seq<Seq<char>>
    decreases current.len(),
{
    if current.len() == 0 {
        Seq::empty()
    } else {
        let before = removals(current.drop_last(), wanted);
        let address = current.last();
        if has_address(wanted, address) || before.contains(address) {
            before
        } else {
            before.push(address)
        }
    }
}

/// The addresses that have to be added, with their sources.
pub open spec fn additions(
    current: Seq<Seq<char>>,
    wanted: Seq<(Seq<char>, Option<Seq<char>>)>,
) -> Seq<(Seq<char>, Option<Seq<char>>)>
    decreases wanted.len(),
{
    if wanted.len() == 0 {
        Seq::empty()
    } else {
        let before = additions(current, wanted.drop_last());
        if current.contains(wanted.last().0) {
            before
        } else {
            before.push(wanted.last())
        }
    }
}

/// Exactly the members that aren't wanted are removed.
pub proof fn removals_are_unwanted(
    current: Seq<Seq<char>>,
    wanted: Seq<(Seq<char>, Option<Seq<char>>)>,
    address: Seq<char>,
)
    ensures
        removals(current, wanted).contains(address) <==> current.contains(address) && !has_address(
            wanted,
            address,
        ),
    decreases current.len(),
{
    if current.len() > 0 {
        let front = current.drop_last();
        removals_are_unwanted(front, wanted, address);
        removals_are_unwanted(front, wanted, current.last());
        let before = removals(front, wanted);
        assert(current =~= front.push(current.last()));
        if before.contains(address) {
            let i = choose|i: int| 0 <= i < before.len() && before[i] == address;
            assert(removals(current, wanted)[i] == address);
        }
        if front.contains(address) {
            let i = choose|i: int| 0 <= i < front.len() && front[i] == address;
            assert(current[i] == address);
        }
        if current.contains(address) && !front.contains(address) {
            assert(current.last() == address);
            if !has_address(wanted, address) {
                let after = removals(current, wanted);
                assert(before.contains(address) || after[before.len() as int] == address);
            }
        }
        assert(current[current.len() - 1] == current.last());
    }
}

/// Exactly the wanted members that aren't members yet are added.
pub proof fn additions_are_missing(
    current: Seq<Seq<char>>,
    wanted: Seq<(Seq<char>, Option<Seq<char>>)>,
    address: Seq<char>,
)
    ensures
        has_address(additions(current, wanted), address) <==> has_address(wanted, address)
            && !current.contains(address),
    decreases wanted.len(),
{
    if wanted.len() > 0 {
        let front = wanted.drop_last();
        additions_are_missing(current, front, address);
        let before = additions(current, front);
        let after = additions(current, wanted);
        if has_address(before, address) {
            let i = choose|i: int| 0 <= i < before.len() && (#[trigger] before[i]).0 == address;
            assert(after[i].0 == address);
        }
        if has_address(front, address) {
            let i = choose|i: int| 0 <= i < front.len() && (#[trigger] front[i]).0 == address;
            assert(wanted[i].0 == address);
        }
        assert(wanted[wanted.len() - 1].0 == wanted.last().0);
        if has_address(wanted, address) && !has_address(front, address) {
            let i = choose|i: int| 0 <= i < wanted.len() && (#[trigger] wanted[i]).0 == address;
            if i < wanted.len() - 1 {
                assert(front[i].0 == address);
            }
            if !current.contains(address) {
                assert(after[before.len() as int].0 == address);
            }
        }
        if has_address(after, address) && !has_address(before, address) {
            let i = choose|i: int| 0 <= i < after.len() && (#[trigger] after[i]).0 == address;
            if i < before.len() {
                assert(before[i].0 == address);
            }
        }
    }
}

/// Once the members that aren't wanted are removed and the missing ones are added, the members are
/// the wanted ones.
pub proof fn changes_lead_to_wanted(
    current: Seq<Seq<char>>,
    wanted: Seq<(Seq<char>, Option<Seq<char>>)>,
    address: Seq<char>,
)
    ensures
        ((current.contains(address) && !removals(current, wanted).contains(address)) || has_address(
            additions(current, wanted),
            address,
        )) <==> has_address(wanted, address),
{
    removals_are_unwanted(current, wanted, address);
    additions_are_missing(current, wanted, address);
}

/// A device that is to be added to a group, or removed from it.
#[derive(Debug)]
pub struct MemberChange {
    /// The address of the device.
    pub device: ValueWithSource<String>,
    /// The event to publish first.
    pub event: EventCore,
}

/// What has to be done to get to the wanted members.
#[derive(Debug)]
pub struct MemberPlan {
    /// The devices to remove.
    pub remove: Vec<MemberChange>,
    /// The devices to add, after the others have been removed.
    pub add: Vec<MemberChange>,
}

/// The model of a [`MemberChange`].
#[verifier::ext_equal]
pub struct ChangeModel {
    /// The address of the device.
    pub address: Seq<char>,
    /// The source of the address.
    pub source: Option<Seq<char>>,
    /// The event to publish first.
    pub event: event_manager::EventCoreModel,
}

impl View for MemberChange {
    type V = ChangeModel;

    open spec fn view(&self) -> ChangeModel {
        ChangeModel {
            address: self.device.inner()@,
            source: self.device.path(),
            event: self.event@,
        }
    }
}

/// The model of an event about a member.
pub open spec fn member_event(note: Seq<char>, path: Option<Seq<char>>) -> event_manager::EventCoreModel {
    event_manager::EventCoreModel {
        action: "Reconciling"@,
        note: Some(note),
        reason: "Changed"@,
        type_: EventType::Normal,
        field_path: path,
    }
}

/// The removal of a device.
pub open spec fn removal(address: Seq<char>) -> ChangeModel {
    ChangeModel {
        address,
        source: None,
        event: member_event(
            "removing device "@ + address + " from group"@,
            Some("spec.members"@),
        ),
    }
}

/// The addition of a device.
pub open spec fn addition(member: (Seq<char>, Option<Seq<char>>)) -> ChangeModel {
    ChangeModel {
        address: member.0,
        source: member.1,
        event: member_event("adding device "@ + member.0 + " to group"@, member.1),
    }
}

/// The models of changes.
pub open spec fn change_models(list: Seq<MemberChange>) -> Seq<ChangeModel> {
    list.map_values(|change: MemberChange| change@)
}

/// The addresses of the members of a group.
pub open spec fn member_addresses(members: Seq<BridgeGroupMember>) -> Seq<Seq<char>> {
    members.map_values(|member: BridgeGroupMember| member.ieee_address@)
}

fn create_member_event(note: String, path: Option<String>) -> (r: EventCore)
    ensures
        r@ == member_event(note@, with_source::path_of(path)),
{
    EventCore {
        action: "Reconciling".to_owned(),
        note: Some(note),
        reason: "Changed".to_owned(),
        type_: EventType::Normal,
        field_path: path,
    }
}

fn plan_removals(current: &Vec<BridgeGroupMember>, wanted: &Vec<ValueWithSource<String>>) -> (r:
    Vec<MemberChange>)
    ensures
        change_models(r@) == removals(
            member_addresses(current@),
            member_models(wanted@),
        ).map_values(|address: Seq<char>| removal(address)),
{
    let mut list: Vec<MemberChange> = Vec::new();
    let ghost all = member_addresses(current@);
    let ghost goal = member_models(wanted@);
    let ghost f = |address: Seq<char>| removal(address);
    proof {
        assert(all.take(0) =~= Seq::empty());
        assert(change_models(list@) =~= removals(all.take(0), goal).map_values(f));
    }
    for i in 0..current.len()
        invariant
            all == member_addresses(current@),
            goal == member_models(wanted@),
            f == (|address: Seq<char>| removal(address)),
            change_models(list@) == removals(all.take(i as int), goal).map_values(f),
    {
        let address = &current[i].ieee_address;
        let ghost before = removals(all.take(i as int), goal);
        proof {
            assert(all.take(i + 1).drop_last() =~= all.take(i as int));
            assert(all.take(i + 1).last() == address@);
        }
        if !lists_address(wanted, address.as_str()) && !plans_address(&list, address.as_str()) {
            proof {
                if before.contains(address@) {
                    let k = choose|k: int| 0 <= k < before.len() && before[k] == address@;
                    assert(change_models(list@)[k] == f(before[k]));
                    assert(change_models(list@)[k].address == address@);
                }
            }
            let note = "removing device ".to_owned().concat(address.as_str()).concat(" from group");
            let event = create_member_event(note, Some("spec.members".to_owned()));
            let change = MemberChange {
                device: ValueWithSource::new(address.clone(), None),
                event,
            };
            let ghost made = list@;
            let ghost shown = change@;
            list.push(change);
            proof {
                assert(change_models(list@) =~= change_models(made).push(shown));
                assert(before.push(address@).map_values(f) =~= before.map_values(f).push(
                    removal(address@),
                ));
            }
        } else {
            proof {
                if !has_address(goal, address@) {
                    let k = choose|k: int|
                        0 <= k < list@.len() && (#[trigger] change_models(list@)[k]).address
                            == address@;
                    assert(change_models(list@).len() == list@.len());
                    assert(before.map_values(f).len() == before.len());
                    assert(change_models(list@)[k] == f(before[k]));
                    assert(before[k] == address@);
                }
            }
        }
    }
    proof {
        assert(all.take(all.len() as int) =~= all);
    }
    list
}

fn plans_address(list: &Vec<MemberChange>, address: &str) -> (r: bool)
    ensures
        r == exists|k: int|
            0 <= k < list@.len() && (#[trigger] change_models(list@)[k]).address == address@,
{
    for i in 0..list.len()
        invariant
            forall|j: int|
                0 <= j < i ==> (#[trigger] change_models(list@)[j]).address != address@,
    {
        if text::same_text(list[i].device.value().as_str(), address) {
            proof {
                assert(change_models(list@)[i as int].address == address@);
            }
            return true;
        }
    }
    false
}

fn is_member(current: &Vec<BridgeGroupMember>, address: &str) -> (r: bool)
    ensures
        r == member_addresses(current@).contains(address@),
{
    for i in 0..current.len()
        invariant
            forall|j: int| 0 <= j < i ==> #[trigger] member_addresses(current@)[j] != address@,
    {
        if text::same_text(current[i].ieee_address.as_str(), address) {
            proof {
                assert(member_addresses(current@)[i as int] == address@);
            }
            return true;
        }
    }
    false
}

fn plan_additions(current: &Vec<BridgeGroupMember>, wanted: Vec<ValueWithSource<String>>) -> (r:
    Vec<MemberChange>)
    ensures
        change_models(r@) == additions(
            member_addresses(current@),
            member_models(wanted@),
        ).map_values(|member: (Seq<char>, Option<Seq<char>>)| addition(member)),
{
    let mut list: Vec<MemberChange> = Vec::new();
    let ghost now = member_addresses(current@);
    let ghost goal = member_models(wanted@);
    let ghost f = |member: (Seq<char>, Option<Seq<char>>)| addition(member);
    proof {
        assert(goal.take(0) =~= Seq::empty());
        assert(change_models(list@) =~= additions(now, goal.take(0)).map_values(f));
    }
    for i in 0..wanted.len()
        invariant
            now == member_addresses(current@),
            goal == member_models(wanted@),
            f == (|member: (Seq<char>, Option<Seq<char>>)| addition(member)),
            change_models(list@) == additions(now, goal.take(i as int)).map_values(f),
    {
        let member = &wanted[i];
        let address = member.value();
        let ghost before = additions(now, goal.take(i as int));
        proof {
            assert(goal.take(i + 1).drop_last() =~= goal.take(i as int));
            assert(goal.take(i + 1).last() == goal[i as int]);
        }
        if !is_member(current, address.as_str()) {
            let note = "adding device ".to_owned().concat(address.as_str()).concat(" to group");
            let path = match member.source() {
                Some(source) => Some(source.clone()),
                None => None,
            };
            let event = create_member_event(note, path);
            let change = MemberChange { device: member.with_value(address.clone()), event };
            let ghost made = list@;
            let ghost shown = change@;
            list.push(change);
            proof {
                assert(change_models(list@) =~= change_models(made).push(shown));
                assert(before.push(goal[i as int]).map_values(f) =~= before.map_values(f).push(
                    addition(goal[i as int]),
                ));
            }
        }
    }
    proof {
        assert(goal.take(goal.len() as int) =~= goal);
    }
    list
}

impl Group {
    /// Plan what has to be done to get to the wanted members; nothing if members aren't managed.
    pub fn sync_members(&self, devices: &Vec<BridgeDevice>, current: &Vec<BridgeGroupMember>) -> (r:
        Result<MemberPlan, ErrorWithMeta>)
        ensures
            ({
                let now = member_addresses(current@);
                match self.spec.members {
                    None => r matches Ok(plan) && plan.remove@.len() == 0 && plan.add@.len() == 0,
                    Some(members) => match (
                        r,
                        wanted_members(devices@, text::texts(members@), Some("spec.members"@)),
                    ) {
                        (Ok(plan), Ok(wanted)) => {
                            &&& change_models(plan.remove@) == removals(now, wanted).map_values(
                                |address: Seq<char>| removal(address),
                            )
                            &&& change_models(plan.add@) == additions(now, wanted).map_values(
                                |member: (Seq<char>, Option<Seq<char>>)| addition(member),
                            )
                        },
                        (Err(e), Err((name, source))) => e@ == (error::ErrorWithMetaModel {
                            error: error::ErrorModel::ActionFailed(unknown_member(name), None),
                            source,
                            published: false,
                        }),
                        _ => false,
                    },
                }
            }),
    {
        match &self.spec.members {
            None => Ok(MemberPlan { remove: Vec::new(), add: Vec::new() }),
            Some(members) => {
                let copy = members.clone();
                proof {
                    assert(text::texts(copy@) =~= text::texts(members@));
                }
                let members = ValueWithSource::new(copy, Some("spec.members".to_owned()));
                match find_wanted_members(devices, members) {
                    Ok(wanted) => {
                        let remove = plan_removals(current, &wanted);
                        let add = plan_additions(current, wanted);
                        Ok(MemberPlan { remove, add })
                    },
                    Err(error) => Err(error),
                }
            },
        }
    }
}

} // verus!
