//! In-memory scheduling of durable flow resumption.

use vstd::prelude::*;

use crate::text;
use crate::text::{decimal_text, join};
use crate::time::Timestamp;

verus! {

/// One due flow-resume request emitted by [`MemoryFlowScheduler`].
#[derive(Debug)]
pub struct ScheduledResume {
    schedule_id: String,
    flow_id: String,
    state_id: String,
    due_at: Timestamp,
}

/// Mathematical model of a [`ScheduledResume`].
pub struct ScheduleView {
    pub schedule_id: Seq<char>,
    pub flow_id: Seq<char>,
    pub state_id: Seq<char>,
    pub due_at: int,
}

impl View for ScheduledResume {
    type V = ScheduleView;

    closed spec fn view(&self) -> ScheduleView {
        ScheduleView {
            schedule_id: self.schedule_id@,
            flow_id: self.flow_id@,
            state_id: self.state_id@,
            due_at: self.due_at@,
        }
    }
}

impl DeepView for ScheduledResume {
    type V = ScheduleView;

    open spec fn deep_view(&self) -> ScheduleView {
        self@
    }
}

impl Clone for ScheduledResume {
    fn clone(&self) -> (result: Self)
        ensures
            result@ == self@,
    {
        ScheduledResume {
            schedule_id: self.schedule_id.clone(),
            flow_id: self.flow_id.clone(),
            state_id: self.state_id.clone(),
            due_at: self.due_at,
        }
    }
}

impl ScheduledResume {
    /// Returns the scheduler-specific cancellation identity.
    pub fn schedule_id(&self) -> (result: &str)
        ensures
            result@ == self@.schedule_id,
    {
        self.schedule_id.as_str()
    }

    /// Returns the flow that should be resumed.
    pub fn flow_id(&self) -> (result: &str)
        ensures
            result@ == self@.flow_id,
    {
        self.flow_id.as_str()
    }

    /// Returns the step at which the flow was suspended.
    pub fn state_id(&self) -> (result: &str)
        ensures
            result@ == self@.state_id,
    {
        self.state_id.as_str()
    }

    /// Returns when this resume becomes eligible.
    pub fn due_at(&self) -> (result: Timestamp)
        ensures
            result@ == self@.due_at,
    {
        self.due_at
    }
}

/// A concurrent map of `dashmap`.
#[verifier::external_type_specification]
#[verifier::external_body]
#[verifier::reject_recursive_types(K)]
#[verifier::reject_recursive_types(V)]
#[verifier::reject_recursive_types(S)]
pub struct ExDashMap<K, V, S>(dashmap::DashMap<K, V, S>);

/// The schedules that a concurrent map holds, by their identity.
pub uninterp spec fn map_schedules(
    map: dashmap::DashMap<String, ScheduledResume, std::hash::RandomState>,
) -> Map<Seq<char>, ScheduleView>;

/// The map without schedules.
pub open spec fn no_schedules() -> Map<Seq<char>, ScheduleView> {
    Map::empty()
}

/// Creates a map without entries.
///
/// Calls `DashMap::new`, which holds nothing at first.
#[verifier::external_body]
fn new_map() -> (result: dashmap::DashMap<String, ScheduledResume, std::hash::RandomState>)
    ensures
        map_schedules(result) == no_schedules(),
{
    dashmap::DashMap::new()
}

/// Stores a schedule under its identity.
///
/// Calls `DashMap::insert`, which replaces the entry of an equal key and keeps every other entry.
/// The map is borrowed exclusively, so no other caller changes it meanwhile.
#[verifier::external_body]
fn map_insert(
    map: &mut dashmap::DashMap<String, ScheduledResume, std::hash::RandomState>,
    key: String,
    schedule: ScheduledResume,
)
    ensures
        map_schedules(*final(map)) == map_schedules(*old(map)).insert(key@, schedule@),
{
    map.insert(key, schedule);
}

/// Takes out the schedule with an identity.
///
/// Calls `DashMap::remove`, which returns the entry of an equal key, if there is one, and keeps
/// every other entry. The map is borrowed exclusively, so no other caller changes it meanwhile.
#[verifier::external_body]
fn map_remove(
    map: &mut dashmap::DashMap<String, ScheduledResume, std::hash::RandomState>,
    key: &str,
) -> (result: Option<ScheduledResume>)
    ensures
        map_schedules(*final(map)) == map_schedules(*old(map)).remove(key@),
        match result {
            Some(schedule) => map_schedules(*old(map)).contains_key(key@) && schedule@
                == map_schedules(*old(map))[key@],
            None => !map_schedules(*old(map)).contains_key(key@),
        },
{
    map.remove(key).map(|entry| entry.1)
}

/// Lists the schedules with their keys.
///
/// Calls `DashMap::iter`, which visits every entry once, in no particular order.
#[verifier::external_body]
fn map_entries(map: &dashmap::DashMap<String, ScheduledResume, std::hash::RandomState>) -> (result:
    Vec<(String, ScheduledResume)>)
    ensures
        forall|key: Seq<char>|
            map_schedules(*map).contains_key(key) <==> exists|i: int|
                0 <= i < result@.len() && (#[trigger] result@[i]).0@ == key,
        forall|i: int|
            0 <= i < result@.len() ==> map_schedules(*map)[(#[trigger] result@[i]).0@]
                == result@[i].1@,
        forall|i: int, j: int|
            0 <= i < j < result@.len() ==> (#[trigger] result@[i]).0@ != (
            #[trigger] result@[j]).0@,
{
    map.iter().map(|entry| (entry.key().clone(), entry.value().clone())).collect()
}

/// A deterministic in-memory scheduler for local development and integration tests.
pub struct MemoryFlowScheduler {
    next_id: u64,
    schedules: dashmap::DashMap<String, ScheduledResume, std::hash::RandomState>,
}

/// The identity of the schedule with a number.
pub open spec fn schedule_name(number: u64) -> Seq<char> {
    "flow-resume-"@ + text::decimal(number as nat)
}

/// Whether every schedule is stored under its own identity.
pub open spec fn keyed_by_identity(schedules: Map<Seq<char>, ScheduleView>) -> bool {
    forall|key: Seq<char>| #[trigger]
        schedules.contains_key(key) ==> schedules[key].schedule_id == key
}

/// The schedules that are not yet due.
pub open spec fn later_schedules(
    schedules: Map<Seq<char>, ScheduleView>,
    now: int,
) -> Map<Seq<char>, ScheduleView> {
    schedules.restrict(
        Set::new(|key: Seq<char>| schedules.contains_key(key) && schedules[key].due_at > now),
    )
}

/// Whether `taken` are exactly the due schedules, each once.
pub open spec fn takes_due(
    schedules: Map<Seq<char>, ScheduleView>,
    now: int,
    taken: Seq<ScheduleView>,
) -> bool {
    &&& forall|i: int|
        0 <= i < taken.len() ==> schedules.contains_key((#[trigger] taken[i]).schedule_id)
            && schedules[taken[i].schedule_id] == taken[i] && taken[i].due_at <= now
    &&& forall|key: Seq<char>|
        #![trigger schedules.contains_key(key)]
        schedules.contains_key(key) && schedules[key].due_at <= now ==> exists|i: int|
            0 <= i < taken.len() && (#[trigger] taken[i]).schedule_id == key
    &&& forall|i: int, j: int|
        0 <= i < j < taken.len() ==> (#[trigger] taken[i]).schedule_id != (
        #[trigger] taken[j]).schedule_id
}

/// The schedules with one more.
pub open spec fn with_schedule(
    schedules: Map<Seq<char>, ScheduleView>,
    schedule_id: Seq<char>,
    flow_id: Seq<char>,
    state_id: Seq<char>,
    due_at: int,
) -> Map<Seq<char>, ScheduleView> {
    schedules.insert(schedule_id, ScheduleView { schedule_id, flow_id, state_id, due_at })
}

/// The number behind another; behind the last one it starts again.
pub open spec fn following_number(number: u64) -> u64 {
    if number < u64::MAX {
        (number + 1) as u64
    } else {
        0
    }
}

impl View for MemoryFlowScheduler {
    type V = Map<Seq<char>, ScheduleView>;

    closed spec fn view(&self) -> Map<Seq<char>, ScheduleView> {
        map_schedules(self.schedules)
    }
}

impl MemoryFlowScheduler {
    #[verifier::type_invariant]
    spec fn stores_by_identity(&self) -> bool {
        keyed_by_identity(self@)
    }

    /// The number of the next schedule identity.
    pub closed spec fn next_number(&self) -> u64 {
        self.next_id
    }

    /// Creates a scheduler without schedules.
    pub fn new() -> (result: Self)
        ensures
            result@ == no_schedules(),
            result.next_number() == 0,
    {
        MemoryFlowScheduler { next_id: 0, schedules: new_map() }
    }

    /// Schedules `flow_id` for resumption at `due_at` and returns a cancellation identity.
    pub fn schedule_resume(&mut self, flow_id: &str, state_id: &str, due_at: Timestamp) -> (result:
        String)
        ensures
            result@ == schedule_name(old(self).next_number()),
            final(self)@ == with_schedule(old(self)@, result@, flow_id@, state_id@, due_at@),
            final(self).next_number() == following_number(old(self).next_number()),
    {
        proof {
            use_type_invariant(&*self);
        }
        let number: u64 = self.next_id;
        self.next_id = if number < u64::MAX {
            number + 1
        } else {
            0
        };
        let schedule_id: String = join("flow-resume-", decimal_text(number).as_str());
        let schedule = ScheduledResume {
            schedule_id: schedule_id.clone(),
            flow_id: flow_id.to_owned(),
            state_id: state_id.to_owned(),
            due_at,
        };
        let mut schedules = new_map();
        std::mem::swap(&mut schedules, &mut self.schedules);
        map_insert(&mut schedules, schedule_id.clone(), schedule);
        assert forall|key: Seq<char>| #[trigger] map_schedules(schedules).contains_key(key) implies
            map_schedules(schedules)[key].schedule_id == key by {
            if key != schedule_id@ {
                assert(old(self)@.contains_key(key));
            }
        }
        self.schedules = schedules;
        schedule_id
    }

    /// Cancels a scheduled resume when it has not started.
    pub fn cancel_resume(&mut self, schedule_id: &str) -> (result: bool)
        ensures
            result == old(self)@.contains_key(schedule_id@),
            final(self)@ == old(self)@.remove(schedule_id@),
            final(self).next_number() == old(self).next_number(),
    {
        proof {
            use_type_invariant(&*self);
        }
        let mut schedules = new_map();
        std::mem::swap(&mut schedules, &mut self.schedules);
        let removed: bool = map_remove(&mut schedules, schedule_id).is_some();
        self.schedules = schedules;
        removed
    }

    /// Removes and returns every schedule due no later than `now`.
    pub fn take_due(&mut self, now: Timestamp) -> (result: Vec<ScheduledResume>)
        ensures
            takes_due(old(self)@, now@, result.deep_view()),
            final(self)@ == later_schedules(old(self)@, now@),
            final(self).next_number() == old(self).next_number(),
    {
        proof {
            use_type_invariant(&*self);
        }
        let mut schedules = new_map();
        std::mem::swap(&mut schedules, &mut self.schedules);
        let entries: Vec<(String, ScheduledResume)> = map_entries(&schedules);
        let ghost before = old(self)@;
        let mut due: Vec<ScheduledResume> = Vec::new();
        let mut index: usize = 0;
        while index < entries.len()
            invariant
                index <= entries@.len(),
                keyed_by_identity(before),
                forall|key: Seq<char>|
                    before.contains_key(key) <==> exists|i: int|
                        0 <= i < entries@.len() && (#[trigger] entries@[i]).0@ == key,
                forall|i: int|
                    0 <= i < entries@.len() ==> before[(#[trigger] entries@[i]).0@]
                        == entries@[i].1@,
                forall|i: int, j: int|
                    0 <= i < j < entries@.len() ==> (#[trigger] entries@[i]).0@ != (
                    #[trigger] entries@[j]).0@,
                forall|key: Seq<char>| #[trigger]
                    map_schedules(schedules).contains_key(key) <==> before.contains_key(key) && !(exists|i: int|
                        0 <= i < index && (#[trigger] entries@[i]).0@ == key && entries@[i].1@.due_at
                            <= now@),
                forall|key: Seq<char>| #[trigger]
                    map_schedules(schedules).contains_key(key) ==> map_schedules(schedules)[key] == before[key],
                forall|i: int|
                    0 <= i < due@.len() ==> before.contains_key((#[trigger] due@[i])@.schedule_id)
                        && before[due@[i]@.schedule_id] == due@[i]@ && due@[i]@.due_at <= now@
                        && !map_schedules(schedules).contains_key(due@[i]@.schedule_id),
                forall|i: int|
                    0 <= i < index && (#[trigger] entries@[i]).1@.due_at <= now@ ==> exists|j: int|
                        0 <= j < due@.len() && (#[trigger] due@[j])@.schedule_id
                            == entries@[i].0@,
                forall|i: int, j: int|
                    0 <= i < j < due@.len() ==> (#[trigger] due@[i])@.schedule_id != (
                    #[trigger] due@[j])@.schedule_id,
            decreases entries@.len() - index,
        {
            let ghost key = entries@[index as int].0@;
            let ghost kept = map_schedules(schedules);
            let ghost taken = due@;
            assert(before.contains_key(key));
            if !now.is_before(entries[index].1.due_at) {
                proof {
                    assert(map_schedules(schedules).contains_key(key)) by {
                        if exists|i: int|
                            0 <= i < index && (#[trigger] entries@[i]).0@ == key
                                && entries@[i].1@.due_at <= now@ {
                            let i = choose|i: int|
                                0 <= i < index && (#[trigger] entries@[i]).0@ == key
                                    && entries@[i].1@.due_at <= now@;
                            assert(entries@[i].0@ != entries@[index as int].0@);
                        }
                    }
                }
                match map_remove(&mut schedules, entries[index].0.as_str()) {
                    Some(schedule) => {
                        due.push(schedule);
                        proof {
                            assert(schedule@ == before[key]);
                            assert(schedule@.schedule_id == key);
                            assert(due@[taken.len() as int]@.schedule_id == key);
                            assert forall|i: int| 0 <= i < index && (
                            #[trigger] entries@[i]).1@.due_at <= now@ implies exists|j: int|
                                0 <= j < due@.len() && (#[trigger] due@[j])@.schedule_id
                                    == entries@[i].0@ by {
                                let j = choose|j: int|
                                    0 <= j < taken.len() && (#[trigger] taken[j])@.schedule_id
                                        == entries@[i].0@;
                                assert(due@[j]@.schedule_id == entries@[i].0@);
                            }
                        }
                    },
                    None => {},
                }
            }
            index = index + 1;
            proof {
                assert forall|other: Seq<char>| #[trigger]
                    map_schedules(schedules).contains_key(other) <==> before.contains_key(other) && !(exists|i: int|
                        0 <= i < index && (#[trigger] entries@[i]).0@ == other
                            && entries@[i].1@.due_at <= now@) by {
                    if other == key {
                        assert(entries@[index - 1].0@ == other);
                        if entries@[index - 1].1@.due_at > now@ {
                            assert forall|i: int| 0 <= i < index && (
                            #[trigger] entries@[i]).0@ == other implies entries@[i].1@.due_at
                                > now@ by {
                                assert(before[other] == entries@[i].1@);
                            }
                        }
                    } else {
                        assert(map_schedules(schedules).contains_key(other) <==> kept.contains_key(other));
                    }
                }
            }
        }
        proof {
            let views = due.deep_view();
            assert(map_schedules(schedules) =~= later_schedules(before, now@)) by {
                assert forall|key: Seq<char>| map_schedules(schedules).contains_key(key) <==> (before.contains_key(key)
                    && before[key].due_at > now@) by {
                    if before.contains_key(key) {
                        let i = choose|i: int|
                            0 <= i < entries@.len() && (#[trigger] entries@[i]).0@ == key;
                        assert(before[key] == entries@[i].1@);
                        assert forall|j: int| 0 <= j < entries@.len() && (
                        #[trigger] entries@[j]).0@ == key implies entries@[j].1@ == before[key] by {}
                    }
                }
            }
            assert forall|i: int| 0 <= i < views.len() implies before.contains_key(
                (#[trigger] views[i]).schedule_id,
            ) && before[views[i].schedule_id] == views[i] && views[i].due_at <= now@ by {
                assert(views[i] == due@[i]@);
            }
            assert forall|key: Seq<char>|
                #![trigger before.contains_key(key)]
                before.contains_key(key) && before[key].due_at <= now@ implies exists|i: int|
                0 <= i < views.len() && (#[trigger] views[i]).schedule_id == key by {
                let i = choose|i: int|
                    0 <= i < entries@.len() && (#[trigger] entries@[i]).0@ == key;
                assert(entries@[i].1@.due_at <= now@);
                let j = choose|j: int|
                    0 <= j < due@.len() && (#[trigger] due@[j])@.schedule_id == entries@[i].0@;
                assert(views[j].schedule_id == key);
            }
            assert forall|i: int, j: int| 0 <= i < j < views.len() implies (
            #[trigger] views[i]).schedule_id != (#[trigger] views[j]).schedule_id by {
                assert(views[i] == due@[i]@ && views[j] == due@[j]@);
            }
        }
        self.schedules = schedules;
        due
    }
}

/// A schedule is taken exactly from the instant on at which it is due: before, it stays as it is, and
/// once taken it is gone, so that it is taken once.
pub proof fn lemma_due_schedules_are_taken_once(
    schedules: Map<Seq<char>, ScheduleView>,
    now: int,
    taken: Seq<ScheduleView>,
    key: Seq<char>,
)
    requires
        keyed_by_identity(schedules),
        takes_due(schedules, now, taken),
    ensures
        schedules.contains_key(key) && now >= schedules[key].due_at ==> {
            &&& taken.contains(schedules[key])
            &&& !later_schedules(schedules, now).contains_key(key)
        },
        schedules.contains_key(key) && now < schedules[key].due_at ==> {
            &&& !taken.contains(schedules[key])
            &&& later_schedules(schedules, now).contains_key(key)
            &&& later_schedules(schedules, now)[key] == schedules[key]
        },
        !schedules.contains_key(key) ==> !later_schedules(schedules, now).contains_key(key),
        taken.no_duplicates(),
        forall|i: int|
            0 <= i < taken.len() ==> schedules.contains_key((#[trigger] taken[i]).schedule_id),
{
    if schedules.contains_key(key) && now >= schedules[key].due_at {
        let i = choose|i: int| 0 <= i < taken.len() && (#[trigger] taken[i]).schedule_id == key;
        assert(taken[i] == schedules[key]);
    }
    if schedules.contains_key(key) && now < schedules[key].due_at {
        if taken.contains(schedules[key]) {
            let i = choose|i: int| 0 <= i < taken.len() && taken[i] == schedules[key];
            assert(taken[i].due_at <= now);
        }
    }
    assert forall|i: int, j: int| 0 <= i < taken.len() && 0 <= j < taken.len() && i != j implies
        taken[i] != taken[j] by {
        if i < j {
            assert(taken[i].schedule_id != taken[j].schedule_id);
        } else {
            assert(taken[j].schedule_id != taken[i].schedule_id);
        }
    }
}

/// A new schedule is kept under its identity with what it was made for, and no other changes; a
/// schedule under a fresh identity that is cancelled leaves everything as it was.
pub proof fn lemma_schedules_are_kept_apart(
    schedules: Map<Seq<char>, ScheduleView>,
    schedule_id: Seq<char>,
    flow_id: Seq<char>,
    state_id: Seq<char>,
    due_at: int,
    other: Seq<char>,
)
    requires
        other != schedule_id,
    ensures
        ({
            let kept = with_schedule(schedules, schedule_id, flow_id, state_id, due_at);
            &&& kept.contains_key(schedule_id)
            &&& kept[schedule_id].schedule_id == schedule_id
            &&& kept[schedule_id].flow_id == flow_id
            &&& kept[schedule_id].state_id == state_id
            &&& kept[schedule_id].due_at == due_at
            &&& kept.contains_key(other) == schedules.contains_key(other)
            &&& schedules.contains_key(other) ==> kept[other] == schedules[other]
            &&& !schedules.contains_key(schedule_id) ==> kept.remove(schedule_id) =~= schedules
        }),
{
}

/// Different numbers name different schedules, and each number is followed by another one.
pub proof fn lemma_schedule_names_differ(first: u64, second: u64)
    requires
        first != second,
    ensures
        schedule_name(first) != schedule_name(second),
        following_number(first) != first,
        following_number(first) != following_number(second),
        first < u64::MAX ==> following_number(first) == first + 1,
{
    if schedule_name(first) == schedule_name(second) {
        let prefix = "flow-resume-"@;
        assert(schedule_name(first).skip(prefix.len() as int) =~= text::decimal(first as nat));
        assert(schedule_name(second).skip(prefix.len() as int) =~= text::decimal(second as nat));
        text::lemma_decimal_injective(first as nat, second as nat);
    }
}

} // verus!
