//! Reconcile logic for [`Instance`].

use std::collections::VecDeque;

use vstd::prelude::*;

use crate::crds::{Device, Group, Instance, InstanceHandleUnmanaged, InstanceStatus, Instanced};
use crate::error;
use crate::error::{Error, ErrorWithMeta};
use crate::event_manager;
use crate::event_manager::{EventCore, EventType};
use crate::ext;
use crate::instance::{password_path, username_path};
use crate::mqtt::handlers::device::BridgeDevice;
use crate::mqtt::handlers::group::BridgeGroup;
use crate::mqtt::manager::{
    ConnectionStatus, Options, OptionsCredentials, OptionsTLS, Status, Z2MStatus,
};
use crate::text;
use crate::with_source;
use crate::with_source::ValueWithSource;

verus! {

/// The status of an instance that isn't connected.
pub open spec fn disconnected() -> InstanceStatus {
    InstanceStatus { broker: false, zigbee2mqtt: None }
}

/// The status of an instance after something was reported about it.
pub open spec fn reported_status(status: InstanceStatus, event: Status) -> InstanceStatus {
    match event {
        Status::ConnectionStatus(ConnectionStatus::Active) => InstanceStatus {
            broker: true,
            zigbee2mqtt: Some(false),
        },
        Status::ConnectionStatus(ConnectionStatus::Pending) => status,
        Status::ConnectionStatus(_) => disconnected(),
        Status::Z2MStatus(Z2MStatus::HealthOk) => InstanceStatus {
            broker: true,
            zigbee2mqtt: Some(true),
        },
        Status::Z2MStatus(Z2MStatus::HealthError(_)) => InstanceStatus {
            zigbee2mqtt: Some(false),
            ..status
        },
    }
}

/// See [`reported_status`].
pub fn report_status(status: InstanceStatus, event: &Status) -> (r: InstanceStatus)
    ensures
        r == reported_status(status, *event),
{
    match event {
        Status::ConnectionStatus(ConnectionStatus::Active) => InstanceStatus {
            broker: true,
            zigbee2mqtt: Some(false),
        },
        Status::ConnectionStatus(ConnectionStatus::Pending) => status,
        Status::ConnectionStatus(_) => InstanceStatus { broker: false, zigbee2mqtt: None },
        Status::Z2MStatus(Z2MStatus::HealthOk) => InstanceStatus {
            broker: true,
            zigbee2mqtt: Some(true),
        },
        Status::Z2MStatus(Z2MStatus::HealthError(_)) => InstanceStatus {
            broker: status.broker,
            zigbee2mqtt: Some(false),
        },
    }
}

/// Whether a status is possible: Zigbee2MQTT isn't known to be reachable without a connection to the
/// broker.
pub open spec fn is_consistent(status: InstanceStatus) -> bool {
    status.zigbee2mqtt == Some(true) ==> status.broker
}

/// Whatever is reported, the status stays possible.
pub proof fn reports_keep_consistency(status: InstanceStatus, event: Status)
    requires
        is_consistent(status),
    ensures
        is_consistent(reported_status(status, event)),
{
}

/// Whether there is a manager for an instance.
#[derive(Debug)]
pub enum InstanceTrackStatus<M> {
    /// There is no instance with the provided full_name.
    Missing,
    /// There is an instance with the provided full_name, but there is no manager for it yet.
    Pending,
    /// There is an instance with the provided full_name, and there is also a manager for it.
    Ready(M),
}

/// What to do for a resource that needs the manager of its instance.
#[derive(Debug)]
pub enum ManagerAccess<M> {
    /// Use this manager.
    Use(M),
    /// Try again later.
    Postpone,
}

/// Get the manager of the instance that a resource belongs to.
pub fn get_manager<M>(status: InstanceTrackStatus<M>, full_name: &ValueWithSource<String>) -> (r:
    Result<ManagerAccess<M>, ErrorWithMeta>)
    ensures
        match status {
            InstanceTrackStatus::Missing => r matches Err(e) && e@ == (error::ErrorWithMetaModel {
                error: error::ErrorModel::InvalidResource {
                    field_path: ""@,
                    message: "instance does not exist"@,
                },
                source: full_name.path(),
                published: false,
            }),
            InstanceTrackStatus::Pending => r matches Ok(access) && access is Postpone,
            InstanceTrackStatus::Ready(manager) => r == Ok::<ManagerAccess<M>, ErrorWithMeta>(
                ManagerAccess::Use(manager),
            ),
        },
{
    match status {
        InstanceTrackStatus::Missing => {
            let error = Error::InvalidResource {
                field_path: "".to_owned(),
                message: "instance does not exist".to_owned(),
            };
            Err(error.caused_by(full_name))
        },
        InstanceTrackStatus::Pending => Ok(ManagerAccess::Postpone),
        InstanceTrackStatus::Ready(manager) => Ok(ManagerAccess::Use(manager)),
    }
}

/// Helper to keep track of the Manager for each instance.
#[derive(Debug)]
pub struct InstanceTracker<M> {
    managers: Vec<(String, Option<M>)>,
    last_updated_at: Option<u64>,
}

/// The entries of a tracker as a map.
pub open spec fn entries_map<M>(entries: Seq<(String, Option<M>)>) -> Map<Seq<char>, Option<M>>
    decreases entries.len(),
{
    if entries.len() == 0 {
        Map::empty()
    } else {
        entries_map(entries.drop_last()).insert(entries.last().0@, entries.last().1)
    }
}

/// Whether a list of names has a name.
pub open spec fn lists(names: Seq<String>, name: Seq<char>) -> bool {
    exists|i: int| 0 <= i < names.len() && (#[trigger] names[i])@ == name
}

proof fn lemma_lists_push(names: Seq<String>, last: String, name: Seq<char>)
    ensures
        lists(names.push(last), name) == (lists(names, name) || name == last@),
{
    let all = names.push(last);
    if lists(names, name) {
        let i = choose|i: int| 0 <= i < names.len() && (#[trigger] names[i])@ == name;
        assert(all[i]@ == name);
    }
    assert(all[names.len() as int]@ == last@);
    if lists(all, name) {
        let i = choose|i: int| 0 <= i < all.len() && (#[trigger] all[i])@ == name;
        if i < names.len() {
            assert(names[i]@ == name);
        }
    }
}

fn list_has(names: &Vec<String>, name: &str) -> (r: bool)
    ensures
        r == lists(names@, name@),
{
    for i in 0..names.len()
        invariant
            forall|j: int| 0 <= j < i ==> (#[trigger] names@[j])@ != name@,
    {
        if text::same_text(names[i].as_str(), name) {
            return true;
        }
    }
    false
}

/// Whether the keys of a tracker are distinct.
pub open spec fn distinct_names<M>(entries: Seq<(String, Option<M>)>) -> bool {
    forall|i: int, j: int|
        0 <= i < j < entries.len() ==> (#[trigger] entries[i]).0@ != (#[trigger] entries[j]).0@
}

proof fn lemma_entries<M>(entries: Seq<(String, Option<M>)>)
    requires
        distinct_names(entries),
    ensures
        forall|i: int|
            0 <= i < entries.len() ==> entries_map(entries).contains_key((#[trigger] entries[i]).0@)
                && entries_map(entries)[entries[i].0@] == entries[i].1,
        forall|name: Seq<char>| #[trigger]
            entries_map(entries).contains_key(name) ==> exists|i: int|
                0 <= i < entries.len() && (#[trigger] entries[i]).0@ == name,
    decreases entries.len(),
{
    if entries.len() > 0 {
        let front = entries.drop_last();
        assert(distinct_names(front)) by {
            assert forall|i: int, j: int| 0 <= i < j < front.len() implies (
            #[trigger] front[i]).0@ != (#[trigger] front[j]).0@ by {
                assert(entries[i].0@ != entries[j].0@);
            }
        }
        lemma_entries(front);
        assert forall|i: int| 0 <= i < entries.len() implies entries_map(entries).contains_key(
            (#[trigger] entries[i]).0@,
        ) && entries_map(entries)[entries[i].0@] == entries[i].1 by {
            if i < entries.len() - 1 {
                assert(front[i] == entries[i]);
                assert(entries[i].0@ != entries[entries.len() - 1].0@);
            }
        }
        assert forall|name: Seq<char>| #[trigger]
            entries_map(entries).contains_key(name) implies exists|i: int|
            0 <= i < entries.len() && (#[trigger] entries[i]).0@ == name by {
            if name == entries.last().0@ {
                assert(entries[entries.len() - 1].0@ == name);
            } else {
                assert(entries_map(front).contains_key(name));
                let i = choose|i: int| 0 <= i < front.len() && (#[trigger] front[i]).0@ == name;
                assert(entries[i].0@ == name);
            }
        }
    }
}

impl<M> InstanceTracker<M> {
    #[verifier::type_invariant]
    spec fn distinct(self) -> bool {
        distinct_names(self.managers@)
    }

    /// The instances that are known, with their managers where there is one.
    pub closed spec fn known(self) -> Map<Seq<char>, Option<M>> {
        entries_map(self.managers@)
    }

    /// When the instances were last listed, in milliseconds, if they have been.
    pub closed spec fn updated_at(self) -> Option<u64> {
        self.last_updated_at
    }

    /// Create a tracker that knows nothing yet.
    pub fn new() -> (r: Self)
        ensures
            r.known() == Map::<Seq<char>, Option<M>>::empty(),
            r.updated_at() is None,
    {
        InstanceTracker { managers: Vec::new(), last_updated_at: None }
    }

    fn find(&self, key: &str) -> (r: Option<usize>)
        ensures
            match r {
                Some(i) => {
                    &&& i < self.managers@.len()
                    &&& self.managers@[i as int].0@ == key@
                    &&& self.known().contains_key(key@)
                    &&& self.known()[key@] == self.managers@[i as int].1
                },
                None => !self.known().contains_key(key@),
            },
    {
        proof {
            use_type_invariant(self);
            lemma_entries(self.managers@);
        }
        for i in 0..self.managers.len()
            invariant
                forall|j: int| 0 <= j < i ==> (#[trigger] self.managers@[j]).0@ != key@,
                distinct_names(self.managers@),
        {
            if text::same_text(self.managers[i].0.as_str(), key) {
                proof {
                    lemma_entries(self.managers@);
                }
                return Some(i);
            }
        }
        None
    }
}

impl<M: Clone> InstanceTracker<M> {
    /// Find out whether there is a manager for an instance.
    pub fn get(&self, key: &str) -> (r: InstanceTrackStatus<M>)
        ensures
            if self.known().contains_key(key@) {
                match self.known()[key@] {
                    Some(manager) => r matches InstanceTrackStatus::Ready(copy) && cloned(
                        manager,
                        copy,
                    ),
                    None => r is Pending,
                }
            } else {
                r is Missing
            },
    {
        match self.find(key) {
            Some(i) => match &self.managers[i].1 {
                Some(manager) => InstanceTrackStatus::Ready(manager.clone()),
                None => InstanceTrackStatus::Pending,
            },
            None => InstanceTrackStatus::Missing,
        }
    }
}

/// What to do when an instance isn't known.
#[derive(Clone, Copy, Debug, PartialEq, Eq, Structural)]
pub enum UpdateStep {
    /// List the instances.
    List,
    /// The instances have been listed by someone else in the meantime, so look again.
    Retry,
    /// The instances have been listed a short time ago, so the instance is missing.
    Give,
}

impl<M> InstanceTracker<M> {
    /// Decide whether the instances have to be listed, given when this was asked for and the current
    /// time, in milliseconds.
    pub fn needs_update(&self, started_at: u64, now: u64, interval: u64) -> (r: UpdateStep)
        ensures
            r == match self.updated_at() {
                Some(updated_at) => if updated_at + interval > now {
                    if started_at < updated_at {
                        UpdateStep::Retry
                    } else {
                        UpdateStep::Give
                    }
                } else {
                    UpdateStep::List
                },
                None => UpdateStep::List,
            },
    {
        match self.last_updated_at {
            Some(updated_at) => if updated_at as u128 + interval as u128 > now as u128 {
                if started_at < updated_at {
                    UpdateStep::Retry
                } else {
                    UpdateStep::Give
                }
            } else {
                UpdateStep::List
            },
            None => UpdateStep::List,
        }
    }

    /// Take over the list of instances: new ones are added without a manager, and those that don't
    /// exist any more are removed.
    pub fn update(&mut self, instances: &Vec<String>, now: u64)
        ensures
            final(self).updated_at() == Some(now),
            forall|name: Seq<char>| #[trigger]
                final(self).known().contains_key(name) == lists(instances@, name),
            forall|name: Seq<char>|
                lists(instances@, name) ==> #[trigger] final(self).known()[name] == (
                if old(self).known().contains_key(name) {
                    old(self).known()[name]
                } else {
                    None
                }),
    {
        let ghost before = self.known();
        let names = self.names();
        for i in 0..names.len()
            invariant
                forall|name: Seq<char>| #[trigger]
                    before.contains_key(name) == lists(names@, name),
                forall|name: Seq<char>| #[trigger]
                    self.known().contains_key(name) == (before.contains_key(name) && (lists(
                        instances@,
                        name,
                    ) || !lists(names@.take(i as int), name))),
                forall|name: Seq<char>| #[trigger]
                    self.known().contains_key(name) ==> self.known()[name] == before[name],
        {
            let ghost passed = names@.take(i as int);
            proof {
                assert forall|name: Seq<char>| #[trigger]
                    lists(names@.take(i + 1), name) == (lists(passed, name) || name
                        == names@[i as int]@) by {
                    lemma_lists_push(passed, names@[i as int], name);
                    assert(names@.take(i + 1) =~= passed.push(names@[i as int]));
                }
            }
            if !list_has(instances, names[i].as_str()) {
                self.remove(names[i].as_str());
            }
        }
        proof {
            assert(names@.take(names@.len() as int) =~= names@);
        }
        for i in 0..instances.len()
            invariant
                forall|name: Seq<char>| #[trigger]
                    self.known().contains_key(name) == (lists(instances@, name) && (
                    before.contains_key(name) || lists(instances@.take(i as int), name))),
                forall|name: Seq<char>| #[trigger]
                    self.known().contains_key(name) ==> self.known()[name] == (
                    if before.contains_key(name) {
                        before[name]
                    } else {
                        None
                    }),
        {
            let ghost passed = instances@.take(i as int);
            proof {
                assert forall|name: Seq<char>| #[trigger]
                    lists(instances@.take(i + 1), name) == (lists(passed, name) || name
                        == instances@[i as int]@) by {
                    lemma_lists_push(passed, instances@[i as int], name);
                    assert(instances@.take(i + 1) =~= passed.push(instances@[i as int]));
                }
                assert(lists(instances@, instances@[i as int]@));
            }
            if self.find(instances[i].as_str()).is_none() {
                self.insert(instances[i].as_str(), None);
            }
        }
        proof {
            assert(instances@.take(instances@.len() as int) =~= instances@);
            assert forall|name: Seq<char>| lists(instances@, name) implies #[trigger] self.known()[name]
                == (if before.contains_key(name) {
                before[name]
            } else {
                None
            }) by {
                assert(self.known().contains_key(name));
            }
            use_type_invariant(&*self);
        }
        let ghost done = self.known();
        self.last_updated_at = Some(now);
        proof {
            assert(self.known() == done);
            assert forall|name: Seq<char>| #[trigger]
                self.known().contains_key(name) == lists(instances@, name) by {
                assert(done.contains_key(name) == lists(instances@, name));
            }
        }
    }

    /// The names of the instances that are known.
    fn names(&self) -> (r: Vec<String>)
        ensures
            forall|name: Seq<char>| #[trigger]
                self.known().contains_key(name) == lists(r@, name),
    {
        proof {
            use_type_invariant(self);
            lemma_entries(self.managers@);
        }
        let mut names: Vec<String> = Vec::new();
        for i in 0..self.managers.len()
            invariant
                names@.len() == i,
                forall|j: int| 0 <= j < i ==> (#[trigger] names@[j])@ == self.managers@[j].0@,
        {
            names.push(self.managers[i].0.clone());
        }
        proof {
            assert forall|name: Seq<char>| #[trigger]
                self.known().contains_key(name) == lists(names@, name) by {
                if self.known().contains_key(name) {
                    let i = choose|i: int|
                        0 <= i < self.managers@.len() && (#[trigger] self.managers@[i]).0@ == name;
                    assert(names@[i]@ == name);
                }
                if lists(names@, name) {
                    let i = choose|i: int| 0 <= i < names@.len() && (#[trigger] names@[i])@ == name;
                    assert(self.known().contains_key(self.managers@[i].0@));
                }
            }
        }
        names
    }

    /// Set the manager of an instance, or that it has none yet.
    pub fn insert(&mut self, key: &str, manager: Option<M>)
        ensures
            final(self).known() == old(self).known().insert(key@, manager),
            final(self).updated_at() == old(self).updated_at(),
    {
        self.remove(key);
        proof {
            use_type_invariant(&*self);
            lemma_entries(self.managers@);
        }
        let mut managers: Vec<(String, Option<M>)> = Vec::new();
        std::mem::swap(&mut managers, &mut self.managers);
        let ghost before = managers@;
        managers.push((key.to_owned(), manager));
        proof {
            assert(managers@.drop_last() =~= before);
            assert(distinct_names(managers@)) by {
                assert forall|i: int, j: int| 0 <= i < j < managers@.len() implies (
                #[trigger] managers@[i]).0@ != (#[trigger] managers@[j]).0@ by {
                    if j == before.len() {
                        assert(entries_map(before).contains_key(before[i].0@));
                    }
                }
            }
            assert(entries_map(managers@) =~= old(self).known().insert(key@, manager));
        }
        self.managers = managers;
    }

    /// Forget an instance. Returns its manager, if it had one.
    pub fn remove(&mut self, key: &str) -> (r: Option<M>)
        ensures
            final(self).known() == old(self).known().remove(key@),
            final(self).updated_at() == old(self).updated_at(),
            r == if old(self).known().contains_key(key@) {
                old(self).known()[key@]
            } else {
                None
            },
    {
        proof {
            use_type_invariant(&*self);
            lemma_entries(self.managers@);
        }
        match self.find(key) {
            None => {
                proof {
                    assert(self.known() =~= old(self).known().remove(key@));
                }
                None
            },
            Some(k) => {
                let mut managers: Vec<(String, Option<M>)> = Vec::new();
                std::mem::swap(&mut managers, &mut self.managers);
                let ghost before = managers@;
                let (_, manager) = managers.remove(k);
                proof {
                    let after = managers@;
                    assert(distinct_names(after)) by {
                        assert forall|i: int, j: int| 0 <= i < j < after.len() implies (
                        #[trigger] after[i]).0@ != (#[trigger] after[j]).0@ by {
                            let i2 = if i < k {
                                i
                            } else {
                                i + 1
                            };
                            let j2 = if j < k {
                                j
                            } else {
                                j + 1
                            };
                            assert(before[i2].0@ != before[j2].0@);
                        }
                    }
                    lemma_entries(after);
                    lemma_entries(before);
                    assert forall|name: Seq<char>| #[trigger]
                        entries_map(after).contains_key(name) == entries_map(before).remove(
                            key@,
                        ).contains_key(name) by {
                        if entries_map(after).contains_key(name) {
                            let i = choose|i: int|
                                0 <= i < after.len() && (#[trigger] after[i]).0@ == name;
                            let i2 = if i < k {
                                i
                            } else {
                                i + 1
                            };
                            assert(before[i2] == after[i]);
                            assert(before[i2].0@ != before[k as int].0@);
                        }
                        if entries_map(before).contains_key(name) && name != key@ {
                            let i = choose|i: int|
                                0 <= i < before.len() && (#[trigger] before[i]).0@ == name;
                            let i2 = if i < k {
                                i
                            } else {
                                i - 1
                            };
                            assert(after[i2] == before[i]);
                            assert(entries_map(after).contains_key(after[i2].0@));
                        }
                    }
                    assert forall|name: Seq<char>| #[trigger]
                        entries_map(after).contains_key(name) implies entries_map(after)[name] == entries_map(
                        before,
                    )[name] by {
                        let i = choose|i: int|
                            0 <= i < after.len() && (#[trigger] after[i]).0@ == name;
                        let i2 = if i < k {
                            i
                        } else {
                            i + 1
                        };
                        assert(before[i2] == after[i]);
                        assert(entries_map(before)[before[i2].0@] == before[i2].1);
                        assert(entries_map(after)[after[i].0@] == after[i].1);
                    }
                    assert(entries_map(after) =~= entries_map(before).remove(key@));
                }
                self.managers = managers;
                manager
            },
        }
    }
}

/// What to do about the manager of an instance.
#[derive(Debug)]
pub enum SetupStep<M> {
    /// Use the existing manager.
    Keep(M),
    /// Close the existing manager, and start a new one.
    Replace(M),
    /// Start a manager.
    Create,
}

/// What to do about the manager of an instance, given the existing one, if there is one, with what
/// came of applying the options to it. If this has failed the manager must be recreated.
pub open spec fn setup_step<M>(existing: Option<(M, Result<bool, Error>)>) -> SetupStep<M> {
    match existing {
        Some((manager, Ok(_))) => SetupStep::Keep(manager),
        Some((manager, Err(_))) => SetupStep::Replace(manager),
        None => SetupStep::Create,
    }
}

/// See [`setup_step`].
pub fn setup_manager<M>(existing: Option<(M, Result<bool, Error>)>) -> (r: SetupStep<M>)
    ensures
        r == setup_step(existing),
{
    match existing {
        Some((manager, Ok(_))) => SetupStep::Keep(manager),
        Some((manager, Err(_))) => SetupStep::Replace(manager),
        None => SetupStep::Create,
    }
}

/// The error for a manager that takes too long to start.
pub fn start_timeout() -> (r: Error)
    ensures
        r@ == error::ErrorModel::ActionFailed("timeout while starting manager instance"@, None),
{
    Error::ActionFailed("timeout while starting manager instance".to_owned(), None)
}

/// The known instances once one is about to be set up: it is known from then on.
pub open spec fn registered<M>(
    known: Map<Seq<char>, Option<M>>,
    name: Seq<char>,
) -> Map<Seq<char>, Option<M>> {
    if known.contains_key(name) {
        known
    } else {
        known.insert(name, None)
    }
}

/// The known instances once it has been decided what to do about the manager of one: unless its
/// manager is kept, it has none until a new one has been started.
pub open spec fn begun<M>(
    known: Map<Seq<char>, Option<M>>,
    name: Seq<char>,
    step: SetupStep<M>,
) -> Map<Seq<char>, Option<M>> {
    if step is Keep {
        known
    } else {
        known.insert(name, None)
    }
}

/// The known instances after an attempt to start a manager for one, which gives nothing if it takes
/// too long: only if it succeeds there is a manager.
pub open spec fn finished<M>(
    known: Map<Seq<char>, Option<M>>,
    name: Seq<char>,
    started: Option<Result<M, ErrorWithMeta>>,
) -> Map<Seq<char>, Option<M>> {
    match started {
        Some(Ok(manager)) => known.insert(name, Some(manager)),
        _ => known.insert(name, None),
    }
}

/// A manager that is kept stays where it is.
pub proof fn kept_manager_stays<M>(
    known: Map<Seq<char>, Option<M>>,
    name: Seq<char>,
    manager: M,
    existing: Option<(M, Result<bool, Error>)>,
)
    requires
        known.contains_key(name) && known[name] == Some(manager),
        setup_step(existing) is Keep,
    ensures
        begun(registered(known, name), name, setup_step(existing)) == known,
{
}

/// There is no manager while one is being started, and afterwards there is one if and only if this
/// has succeeded: the one that was started.
pub proof fn started_manager_is_used<M>(
    known: Map<Seq<char>, Option<M>>,
    name: Seq<char>,
    existing: Option<(M, Result<bool, Error>)>,
    started: Option<Result<M, ErrorWithMeta>>,
)
    requires
        !(setup_step(existing) is Keep),
    ensures
        ({
            let during = begun(registered(known, name), name, setup_step(existing));
            let after = finished(during, name, started);
            &&& during.contains_key(name) && during[name] is None
            &&& after.contains_key(name)
            &&& match started {
                Some(Ok(manager)) => after[name] == Some(manager),
                _ => after[name] is None,
            }
        }),
{
}

/// Setting up the manager of an instance doesn't affect other instances.
pub proof fn other_managers_are_kept<M>(
    known: Map<Seq<char>, Option<M>>,
    name: Seq<char>,
    existing: Option<(M, Result<bool, Error>)>,
    started: Option<Result<M, ErrorWithMeta>>,
    other: Seq<char>,
)
    requires
        other != name,
    ensures
        ({
            let during = begun(registered(known, name), name, setup_step(existing));
            let after = finished(during, name, started);
            &&& during.contains_key(other) == known.contains_key(other)
            &&& after.contains_key(other) == known.contains_key(other)
            &&& known.contains_key(other) ==> during[other] == known[other] && after[other]
                == known[other]
        }),
{
}

impl<M: Clone> InstanceTracker<M> {
    /// Look for the manager of an instance that is about to be set up. The instance is known from now
    /// on.
    pub fn register(&mut self, key: &str) -> (r: Option<M>)
        ensures
            final(self).known() == registered(old(self).known(), key@),
            final(self).updated_at() == old(self).updated_at(),
            match (final(self).known()[key@], r) {
                (Some(manager), Some(copy)) => cloned(manager, copy),
                (None, None) => true,
                _ => false,
            },
    {
        match self.find(key) {
            Some(i) => match &self.managers[i].1 {
                Some(manager) => Some(manager.clone()),
                None => None,
            },
            None => {
                self.insert(key, None);
                None
            },
        }
    }

    /// Take over what came of starting a manager, which is nothing if it took too long.
    ///
    /// # Errors
    ///
    /// Will return [`ErrorWithMeta`] if there is no manager.
    pub fn finish_setup(&mut self, key: &str, started: Option<Result<M, ErrorWithMeta>>) -> (r:
        Result<M, ErrorWithMeta>)
        ensures
            final(self).known() == finished(old(self).known(), key@, started),
            final(self).updated_at() == old(self).updated_at(),
            match started {
                Some(Ok(manager)) => r matches Ok(copy) && cloned(manager, copy),
                Some(Err(error)) => r == Err::<M, ErrorWithMeta>(error),
                None => r matches Err(e) && e@ == (error::ErrorWithMetaModel {
                    error: error::ErrorModel::ActionFailed(
                        "timeout while starting manager instance"@,
                        None,
                    ),
                    source: None,
                    published: false,
                }),
            },
    {
        match started {
            Some(Ok(manager)) => {
                let copy = manager.clone();
                self.insert(key, Some(manager));
                Ok(copy)
            },
            Some(Err(error)) => {
                self.insert(key, None);
                Err(error)
            },
            None => {
                self.insert(key, None);
                Err(start_timeout().unknown_cause())
            },
        }
    }
}

impl<M> InstanceTracker<M> {
    /// Decide what to do about the manager of an instance. Unless it is kept, the instance has no
    /// manager until a new one has been started.
    pub fn begin_setup(&mut self, key: &str, existing: Option<(M, Result<bool, Error>)>) -> (r:
        SetupStep<M>)
        ensures
            r == setup_step(existing),
            final(self).known() == begun(old(self).known(), key@, r),
            final(self).updated_at() == old(self).updated_at(),
    {
        let step = setup_manager(existing);
        match step {
            SetupStep::Keep(_) => {},
            _ => {
                self.insert(key, None);
            },
        }
        step
    }
}

/// The status of an instance whose manager is about to be started, or is gone.
pub fn disconnected_status() -> (r: InstanceStatus)
    ensures
        r == disconnected(),
{
    InstanceStatus { broker: false, zigbee2mqtt: None }
}

/// Put together the credentials of an instance from what came of looking up the user name and the
/// password.
///
/// # Errors
///
/// Will return [`ErrorWithMeta`] if one of them could not be found, the user name first.
pub fn use_credentials(username: Result<String, Error>, password: Result<String, Error>) -> (r:
    Result<(String, String), ErrorWithMeta>)
    ensures
        match (username, password) {
            (Ok(username), Ok(password)) => r == Ok::<(String, String), ErrorWithMeta>(
                (username, password),
            ),
            (Err(error), _) => r matches Err(e) && e@ == (error::ErrorWithMetaModel {
                error: error@,
                source: Some("spec.credentials.username"@),
                published: false,
            }),
            (Ok(_), Err(error)) => r matches Err(e) && e@ == (error::ErrorWithMetaModel {
                error: error@,
                source: Some("spec.credentials.password"@),
                published: false,
            }),
        },
{
    match (username, password) {
        (Ok(username), Ok(password)) => Ok((username, password)),
        (Err(error), _) => {
            let path = username_path().to_owned();
            Err(error.caused_by(&ValueWithSource::new((), Some(path))))
        },
        (Ok(_), Err(error)) => {
            let path = password_path().to_owned();
            Err(error.caused_by(&ValueWithSource::new((), Some(path))))
        },
    }
}

/// A kind of resource that Zigbee2MQTT may know more of than there are resources.
pub trait ManagedResource: Instanced {
    /// What Zigbee2MQTT knows.
    type Known;

    /// The name of the kind.
    spec fn kind_name() -> Seq<char>;

    /// What an instance does with what isn't defined as a resource.
    spec fn mode(instance: Instance) -> InstanceHandleUnmanaged;

    /// The identifier of a resource, if it has one yet.
    spec fn identifier(&self) -> Option<Seq<char>>;

    /// The identifier and the name of what Zigbee2MQTT knows.
    spec fn identity(known: Self::Known) -> (Seq<char>, Seq<char>);

    /// The name of the kind.
    fn kind() -> (r: &'static str)
        ensures
            r@ == Self::kind_name(),
    ;

    /// Get the management mode for the resource for the given instance.
    fn get_mode(instance: &Instance) -> (r: InstanceHandleUnmanaged)
        ensures
            r == Self::mode(*instance),
    ;

    /// Get the identifier of a managed Kubernetes resource.
    fn kubernetes_resource_identifier(&self) -> (r: Option<String>)
        ensures
            match (r, self.identifier()) {
                (Some(id), Some(expected)) => id@ == expected,
                (None, None) => true,
                _ => false,
            },
    ;

    /// Get the identifier and the name of an existing Zigbee2MQTT resource.
    fn get_zigbee2mqtt(known: &Self::Known) -> (r: (String, String))
        ensures
            (r.0@, r.1@) == Self::identity(*known),
    ;
}

impl ManagedResource for Device {
    type Known = BridgeDevice;

    open spec fn kind_name() -> Seq<char> {
        "Device"@
    }

    open spec fn mode(instance: Instance) -> InstanceHandleUnmanaged {
        instance.spec.unmanaged_devices
    }

    open spec fn identifier(&self) -> Option<Seq<char>> {
        Some(self.spec.ieee_address@)
    }

    open spec fn identity(known: BridgeDevice) -> (Seq<char>, Seq<char>) {
        (known.ieee_address@, known.friendly_name@)
    }

    fn kind() -> (r: &'static str) {
        "Device"
    }

    fn get_mode(instance: &Instance) -> (r: InstanceHandleUnmanaged) {
        instance.spec.unmanaged_devices
    }

    fn kubernetes_resource_identifier(&self) -> (r: Option<String>) {
        Some(self.spec.ieee_address.clone())
    }

    fn get_zigbee2mqtt(known: &BridgeDevice) -> (r: (String, String)) {
        (known.ieee_address.clone(), known.friendly_name.clone())
    }
}

impl ManagedResource for Group {
    type Known = BridgeGroup;

    open spec fn kind_name() -> Seq<char> {
        "Group"@
    }

    open spec fn mode(instance: Instance) -> InstanceHandleUnmanaged {
        instance.spec.unmanaged_groups
    }

    open spec fn identifier(&self) -> Option<Seq<char>> {
        match self.status {
            Some(status) => match status.id {
                Some(id) => Some(text::decimal(id as nat)),
                None => None,
            },
            None => None,
        }
    }

    open spec fn identity(known: BridgeGroup) -> (Seq<char>, Seq<char>) {
        (text::decimal(known.id as nat), known.friendly_name@)
    }

    fn kind() -> (r: &'static str) {
        "Group"
    }

    fn get_mode(instance: &Instance) -> (r: InstanceHandleUnmanaged) {
        instance.spec.unmanaged_groups
    }

    fn kubernetes_resource_identifier(&self) -> (r: Option<String>) {
        match &self.status {
            Some(status) => match status.id {
                Some(id) => Some(text::decimal_text(id as u64)),
                None => None,
            },
            None => None,
        }
    }

    fn get_zigbee2mqtt(known: &BridgeGroup) -> (r: (String, String)) {
        (text::decimal_text(known.id as u64), known.friendly_name.clone())
    }
}

/// Whether a resource, given with its namespace, belongs to an instance.
pub open spec fn belongs_to<T: Instanced>(
    resource: (T, Option<String>),
    full_name: Seq<char>,
) -> bool {
    ext::full_name(with_source::path_of(resource.1), resource.0.instance_name()) == full_name
}

/// The identifiers of the resources, given with their namespaces, that belong to an instance.
pub open spec fn managed_identifiers<T: ManagedResource>(
    full_name: Seq<char>,
    resources: Seq<(T, Option<String>)>,
) -> Seq<Seq<char>>
    decreases resources.len(),
{
    if resources.len() == 0 {
        Seq::empty()
    } else {
        let before = managed_identifiers(full_name, resources.drop_last());
        match resources.last().0.identifier() {
            Some(id) => if belongs_to(resources.last(), full_name) {
                before.push(id)
            } else {
                before
            },
            None => before,
        }
    }
}

/// Exactly those identifiers are managed that a resource of the instance has.
pub proof fn managed_are_of_the_instance<T: ManagedResource>(
    full_name: Seq<char>,
    resources: Seq<(T, Option<String>)>,
    id: Seq<char>,
)
    ensures
        managed_identifiers(full_name, resources).contains(id) <==> exists|i: int|
            0 <= i < resources.len() && belongs_to(#[trigger] resources[i], full_name)
                && resources[i].0.identifier() == Some(id),
    decreases resources.len(),
{
    if resources.len() > 0 {
        let front = resources.drop_last();
        let last = resources.len() - 1;
        managed_are_of_the_instance(full_name, front, id);
        let before = managed_identifiers(full_name, front);
        let after = managed_identifiers(full_name, resources);
        if before.contains(id) {
            let k = choose|k: int| 0 <= k < before.len() && before[k] == id;
            assert(after[k] == id);
            let i = choose|i: int|
                0 <= i < front.len() && belongs_to(#[trigger] front[i], full_name)
                    && front[i].0.identifier() == Some(id);
            assert(resources[i] == front[i]);
        }
        if after.contains(id) && !before.contains(id) {
            let k = choose|k: int| 0 <= k < after.len() && after[k] == id;
            assert(k < before.len() ==> before[k] == id);
            assert(resources[last] == resources.last());
        }
        if exists|i: int|
            0 <= i < resources.len() && belongs_to(#[trigger] resources[i], full_name)
                && resources[i].0.identifier() == Some(id) {
            let i = choose|i: int|
                0 <= i < resources.len() && belongs_to(#[trigger] resources[i], full_name)
                    && resources[i].0.identifier() == Some(id);
            if i < last {
                assert(front[i] == resources[i]);
            } else {
                assert(after[before.len() as int] == id);
            }
        }
    }
}

fn find_managed<T: ManagedResource>(full_name: &str, resources: &Vec<(T, Option<String>)>) -> (r:
    Vec<String>)
    ensures
        text::texts(r@) == managed_identifiers(full_name@, resources@),
{
    let mut found: Vec<String> = Vec::new();
    proof {
        assert(resources@.take(0) =~= Seq::empty());
        assert(text::texts(found@) =~= Seq::empty());
    }
    for i in 0..resources.len()
        invariant
            text::texts(found@) == managed_identifiers(full_name@, resources@.take(i as int)),
    {
        let ghost before = found@;
        let resource = &resources[i].0;
        let namespace = match &resources[i].1 {
            Some(namespace) => Some(namespace.as_str()),
            None => None,
        };
        proof {
            assert(resources@.take(i + 1).drop_last() =~= resources@.take(i as int));
            assert(resources@.take(i + 1).last() == resources@[i as int]);
        }
        let owner = resource.get_instance_fullname(namespace);
        if text::same_text(owner.value().as_str(), full_name) {
            if let Some(id) = resource.kubernetes_resource_identifier() {
                found.push(id);
                proof {
                    assert(text::texts(found@) =~= text::texts(before).push(id@));
                }
            }
        }
    }
    proof {
        assert(resources@.take(resources@.len() as int) =~= resources@);
    }
    found
}

/// The identifiers and names of what Zigbee2MQTT knows.
pub open spec fn identities<T: ManagedResource>(known: Seq<T::Known>) -> Seq<
    (Seq<char>, Seq<char>),
> {
    Seq::new(known.len(), |i: int| T::identity(known[i]))
}

/// A device or group that Zigbee2MQTT knows, but that is not defined as a resource.
#[derive(Debug)]
pub struct Unmanaged {
    /// The index of the device or group.
    pub index: usize,
    /// The event to publish.
    pub event: EventCore,
    /// Whether to delete the device or group, after the event has been published.
    pub delete: bool,
}

/// The indices of the devices or groups, given by their identifiers and names, that aren't managed.
pub open spec fn unmanaged_indices(
    resources: Seq<(Seq<char>, Seq<char>)>,
    managed: Seq<Seq<char>>,
) -> Seq<int>
    decreases resources.len(),
{
    if resources.len() == 0 {
        Seq::empty()
    } else {
        let before = unmanaged_indices(resources.drop_last(), managed);
        if managed.contains(resources.last().0) {
            before
        } else {
            before.push(resources.len() - 1)
        }
    }
}

/// Exactly those devices or groups are reported that aren't managed.
pub proof fn unmanaged_are_reported(
    resources: Seq<(Seq<char>, Seq<char>)>,
    managed: Seq<Seq<char>>,
    i: int,
)
    ensures
        unmanaged_indices(resources, managed).contains(i) <==> 0 <= i < resources.len()
            && !managed.contains(resources[i].0),
    decreases resources.len(),
{
    if resources.len() > 0 {
        let front = resources.drop_last();
        unmanaged_are_reported(front, managed, i);
        let before = unmanaged_indices(front, managed);
        let after = unmanaged_indices(resources, managed);
        if before.contains(i) {
            let k = choose|k: int| 0 <= k < before.len() && before[k] == i;
            assert(after[k] == i);
            assert(front[i] == resources[i]);
        }
        if i == resources.len() - 1 && !managed.contains(resources[i].0) {
            assert(after[before.len() as int] == i);
        }
        if 0 <= i < resources.len() - 1 {
            assert(front[i] == resources[i]);
        }
        if after.contains(i) && !before.contains(i) {
            let k = choose|k: int| 0 <= k < after.len() && after[k] == i;
            assert(k < before.len() ==> before[k] == i);
        }
    }
}

/// What isn't managed is reported once, in order.
pub proof fn unmanaged_are_reported_once(
    resources: Seq<(Seq<char>, Seq<char>)>,
    managed: Seq<Seq<char>>,
)
    ensures
        ({
            let indices = unmanaged_indices(resources, managed);
            &&& forall|j: int| 0 <= j < indices.len() ==> 0 <= #[trigger] indices[j] < resources.len()
            &&& forall|j: int, k: int|
                0 <= j < k < indices.len() ==> #[trigger] indices[j] < #[trigger] indices[k]
        }),
    decreases resources.len(),
{
    if resources.len() > 0 {
        let front = resources.drop_last();
        unmanaged_are_reported_once(front, managed);
        let before = unmanaged_indices(front, managed);
        let after = unmanaged_indices(resources, managed);
        assert forall|j: int| 0 <= j < after.len() implies 0 <= #[trigger] after[j]
            < resources.len() by {
            if j < before.len() {
                assert(after[j] == before[j]);
            }
        }
        assert forall|j: int, k: int| 0 <= j < k < after.len() implies #[trigger] after[j]
            < #[trigger] after[k] by {
            assert(after[j] == before[j]);
            if k < before.len() {
                assert(after[k] == before[k]);
            }
        }
    }
}

/// The note about a device or group that isn't managed.
pub open spec fn unmanaged_note(
    kind: Seq<char>,
    id: Seq<char>,
    name: Seq<char>,
    mode: InstanceHandleUnmanaged,
) -> Seq<char> {
    "Zigbee2MQTT has "@ + kind + " "@ + id + " (name '"@ + name
        + "') which is not defined in K8s"@ + (if mode == InstanceHandleUnmanaged::Delete {
        ", deleting"@
    } else {
        ""@
    }) + "."@
}

/// Whether this is what is to be done about the devices or groups, given by their identifiers and
/// names, that aren't managed: nothing if they are ignored, and otherwise each of them is reported,
/// and deleted only if the mode says so.
pub open spec fn handles_unmanaged(
    found: Seq<Unmanaged>,
    mode: InstanceHandleUnmanaged,
    kind: Seq<char>,
    resources: Seq<(Seq<char>, Seq<char>)>,
    managed: Seq<Seq<char>>,
) -> bool {
    let expected = if mode == InstanceHandleUnmanaged::Ignore {
        Seq::<int>::empty()
    } else {
        unmanaged_indices(resources, managed)
    };
    &&& found.len() == expected.len()
    &&& forall|k: int|
        0 <= k < found.len() ==> {
            &&& (#[trigger] found[k]).index == expected[k]
            &&& found[k].index < resources.len()
            &&& found[k].event@ == event_manager::reconciling(
                unmanaged_note(
                    kind,
                    resources[found[k].index as int].0,
                    resources[found[k].index as int].1,
                    mode,
                ),
                EventType::Warning,
                None,
            )
            &&& found[k].delete == (mode == InstanceHandleUnmanaged::Delete)
        }
}

proof fn lemma_lists(names: Seq<String>, name: Seq<char>)
    ensures
        lists(names, name) == text::texts(names).contains(name),
{
    let all = text::texts(names);
    if lists(names, name) {
        let i = choose|i: int| 0 <= i < names.len() && (#[trigger] names[i])@ == name;
        assert(all[i] == name);
    }
    if all.contains(name) {
        let i = choose|i: int| 0 <= i < all.len() && all[i] == name;
        assert(names[i]@ == name);
    }
}

/// The devices or groups that aren't managed and are yet to be handled.
#[derive(Debug)]
pub struct UnmanagedQueue {
    items: VecDeque<Unmanaged>,
}

/// What to do next about devices or groups that aren't managed.
#[derive(Debug)]
pub enum UnmanagedStep {
    /// Publish the event about this one, and delete it if it is to be deleted.
    Handle(Unmanaged),
    /// All have been handled.
    Done,
    /// Stop, as one couldn't be deleted.
    Failed(ErrorWithMeta),
}

impl UnmanagedQueue {
    /// What is yet to be handled.
    pub closed spec fn rest(self) -> Seq<Unmanaged> {
        self.items@
    }

    /// Decide what to do next, given what came of deleting the previous one, if it was to be deleted.
    pub fn next(&mut self, deleted: Result<(), ErrorWithMeta>) -> (r: UnmanagedStep)
        ensures
            match deleted {
                Ok(()) => if old(self).rest().len() == 0 {
                    &&& r is Done
                    &&& final(self).rest() == old(self).rest()
                } else {
                    &&& r == UnmanagedStep::Handle(old(self).rest()[0])
                    &&& final(self).rest() == old(self).rest().drop_first()
                },
                Err(error) => {
                    &&& r == UnmanagedStep::Failed(error)
                    &&& final(self).rest() == old(self).rest()
                },
            },
    {
        match deleted {
            Ok(()) => match self.items.pop_front() {
                Some(unmanaged) => UnmanagedStep::Handle(unmanaged),
                None => UnmanagedStep::Done,
            },
            Err(error) => UnmanagedStep::Failed(error),
        }
    }
}

/// Find the devices or groups that Zigbee2MQTT knows, but that are not defined as resources of the
/// instance, and decide what to do about them. The resources are given with their namespaces.
pub fn process_unmanaged<T: ManagedResource>(
    instance: &Instance,
    full_name: &str,
    resources: &Vec<(T, Option<String>)>,
    known: &Vec<T::Known>,
) -> (r: UnmanagedQueue)
    ensures
        handles_unmanaged(
            r.rest(),
            T::mode(*instance),
            T::kind_name(),
            identities::<T>(known@),
            managed_identifiers(full_name@, resources@),
        ),
{
    let mode = T::get_mode(instance);
    let mut found: VecDeque<Unmanaged> = VecDeque::new();
    if mode == InstanceHandleUnmanaged::Ignore {
        return UnmanagedQueue { items: found };
    }
    let managed = find_managed(full_name, resources);
    let ghost all = identities::<T>(known@);
    proof {
        assert(all.take(0) =~= Seq::empty());
    }
    for i in 0..known.len()
        invariant
            mode != InstanceHandleUnmanaged::Ignore,
            mode == T::mode(*instance),
            all == identities::<T>(known@),
            text::texts(managed@) == managed_identifiers(full_name@, resources@),
            found@.len() == unmanaged_indices(
                all.take(i as int),
                managed_identifiers(full_name@, resources@),
            ).len(),
            forall|k: int|
                0 <= k < found@.len() ==> {
                    &&& (#[trigger] found@[k]).index == unmanaged_indices(
                        all.take(i as int),
                        managed_identifiers(full_name@, resources@),
                    )[k]
                    &&& found@[k].index < i
                    &&& found@[k].event@ == event_manager::reconciling(
                        unmanaged_note(
                            T::kind_name(),
                            all[found@[k].index as int].0,
                            all[found@[k].index as int].1,
                            mode,
                        ),
                        EventType::Warning,
                        None,
                    )
                    &&& found@[k].delete == (mode == InstanceHandleUnmanaged::Delete)
                },
    {
        let (id, name) = T::get_zigbee2mqtt(&known[i]);
        proof {
            assert(all.take(i + 1).drop_last() =~= all.take(i as int));
            assert(all.take(i + 1).last() == all[i as int]);
            assert((id@, name@) == all[i as int]);
            lemma_lists(managed@, id@);
        }
        if !list_has(&managed, id.as_str()) {
            let delete = mode == InstanceHandleUnmanaged::Delete;
            let extra = if delete {
                ", deleting"
            } else {
                ""
            };
            let note = "Zigbee2MQTT has ".to_owned().concat(T::kind()).concat(" ").concat(
                id.as_str(),
            ).concat(" (name '").concat(name.as_str()).concat(
                "') which is not defined in K8s",
            ).concat(extra).concat(".");
            found.push_back(
                Unmanaged {
                    index: i,
                    event: event_manager::reconciling_event(note, EventType::Warning, None),
                    delete,
                },
            );
        }
    }
    proof {
        assert(all.take(all.len() as int) =~= all);
    }
    UnmanagedQueue { items: found }
}

/// The error for devices that are to be deleted.
pub fn delete_device_error() -> (r: ErrorWithMeta)
    ensures
        r@ == (error::ErrorWithMetaModel {
            error: error::ErrorModel::ActionFailed(
                "deleting of unmanaged devices in Zigbee2MQTT is not supported"@,
                None,
            ),
            source: None,
            published: false,
        }),
{
    Error::ActionFailed(
        "deleting of unmanaged devices in Zigbee2MQTT is not supported".to_owned(),
        None,
    ).unknown_cause()
}

/// The event about a restart of Zigbee2MQTT; none if no restart is required.
pub fn restart_if_needed(restart_required: bool) -> (r: Option<EventCore>)
    ensures
        r is Some <==> restart_required,
        r matches Some(event) ==> event@ == event_manager::reconciling(
            "Zigbee2MQTT requested restart, doing so now. Any reconcile actions on this instance during this restart will fail."@,
            EventType::Normal,
            None,
        ),
{
    if restart_required {
        Some(
            event_manager::reconciling_event(
                "Zigbee2MQTT requested restart, doing so now. Any reconcile actions on this instance during this restart will fail.".to_owned(),
                EventType::Normal,
                None,
            ),
        )
    } else {
        None
    }
}

impl Instance {
    /// How to connect to the broker, given the name of the instance and the credentials, if there are
    /// any.
    pub fn to_options(&self, full_name: String, credentials: Option<(String, String)>) -> (r:
        Options)
        ensures
            r.client_id == full_name,
            r.host.inner()@ == self.spec.host@,
            r.host.path() == Some("spec.host"@),
            r.port.inner() == self.spec.port,
            r.port.path() == Some("spec.port"@),
            r.tls.inner() is None,
            r.tls.path() == Some("spec.tls"@),
            r.credentials.path() == Some("spec.credentials"@),
            match (r.credentials.inner(), credentials) {
                (Some(c), Some((username, password))) => {
                    &&& c.username.inner() == username
                    &&& c.username.path() == Some("spec.credentials.username"@)
                    &&& c.password.inner() == password
                    &&& c.password.path() == Some("spec.credentials.password"@)
                },
                (None, None) => true,
                _ => false,
            },
            r.base_topic.inner()@ == self.spec.base_topic@,
            r.base_topic.path() == Some("spec.base_topic"@),
    {
        let no_tls: Option<OptionsTLS> = None;
        let credentials = match credentials {
            Some((username, password)) => Some(
                OptionsCredentials {
                    username: ValueWithSource::new(
                        username,
                        Some("spec.credentials.username".to_owned()),
                    ),
                    password: ValueWithSource::new(
                        password,
                        Some("spec.credentials.password".to_owned()),
                    ),
                },
            ),
            None => None,
        };
        Options {
            client_id: full_name,
            host: ValueWithSource::new(self.spec.host.clone(), Some("spec.host".to_owned())),
            port: ValueWithSource::new(self.spec.port, Some("spec.port".to_owned())),
            tls: ValueWithSource::new(no_tls, Some("spec.tls".to_owned())),
            credentials: ValueWithSource::new(credentials, Some("spec.credentials".to_owned())),
            base_topic: ValueWithSource::new(
                self.spec.base_topic.clone(),
                Some("spec.base_topic".to_owned()),
            ),
        }
    }
}

} // verus!
