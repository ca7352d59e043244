//! The registry of running tasks and its garbage collection.
use vstd::prelude::*;

use crate::page_loader::task_context::DefaultTaskContext;

verus! {

/// What the registry keeps of a task: its identifier and when it last
/// received a command (nanoseconds on a monotonic clock).
#[derive(Clone, Copy, Debug, PartialEq, Eq, Structural)]
pub struct TrackedTask {
    pub uuid: u128,
    pub last_command_received: u64,
}

/// More than `gc_timeout_ms` milliseconds lie between the task's last command and
/// `now`, both clock readings in nanoseconds.
pub open spec fn collectable(t: TrackedTask, gc_timeout_ms: u64, now: u64) -> bool {
    now > t.last_command_received && now - t.last_command_received > gc_timeout_ms * 1_000_000
}

/// The predicate of the tasks a collection at `now` removes.
pub open spec fn is_collected(gc_timeout_ms: u64, now: u64) -> spec_fn(TrackedTask) -> bool {
    |t: TrackedTask| collectable(t, gc_timeout_ms, now)
}

/// The predicate of the tasks a collection at `now` keeps.
pub open spec fn is_kept(gc_timeout_ms: u64, now: u64) -> spec_fn(TrackedTask) -> bool {
    |t: TrackedTask| !collectable(t, gc_timeout_ms, now)
}

/// The identifiers of the tasks, in order.
pub open spec fn uuids_of(s: Seq<TrackedTask>) -> Seq<u128> {
    s.map_values(|t: TrackedTask| t.uuid)
}

/// No identifier occurs twice.
pub open spec fn unique_uuids(s: Seq<TrackedTask>) -> bool {
    forall|i: int, j: int| 0 <= i < j < s.len() ==> s[i].uuid != s[j].uuid
}

/// Some task in `s` has the identifier `uuid`.
pub open spec fn has_uuid(s: Seq<TrackedTask>, uuid: u128) -> bool {
    exists|i: int| 0 <= i < s.len() && s[i].uuid == uuid
}

/// The registry: every task once, by identifier.
pub struct DefaultTaskManager {
    pub tasks: Vec<TrackedTask>,
    /// How long a task may go without a command before it is removed.
    pub gc_timeout_ms: u64,
}

impl DefaultTaskManager {
    /// Every identifier occurs once.
    pub open spec fn well_formed(&self) -> bool {
        unique_uuids(self.tasks@)
    }

    /// An empty registry that removes tasks idle for more than `gc_timeout_ms`.
    pub fn init(gc_timeout_ms: u64) -> (r: DefaultTaskManager)
        ensures
            r.well_formed(),
            r.tasks@.len() == 0,
            r.gc_timeout_ms == gc_timeout_ms,
    {
        DefaultTaskManager { tasks: Vec::new(), gc_timeout_ms }
    }

    /// Registers `task` under its identifier; a task registered under the same
    /// identifier before is replaced.
    pub fn add_task(&mut self, task: &DefaultTaskContext)
        requires
            old(self).well_formed(),
        ensures
            final(self).well_formed(),
            final(self).gc_timeout_ms == old(self).gc_timeout_ms,
            ({
                let entry = TrackedTask {
                    uuid: task.uuid,
                    last_command_received: task.last_command_received,
                };
                if has_uuid(old(self).tasks@, task.uuid) {
                    exists|i: int|
                        0 <= i < old(self).tasks@.len() && old(self).tasks@[i].uuid == task.uuid
                            && final(self).tasks@ == old(self).tasks@.update(i, entry)
                } else {
                    final(self).tasks@ == old(self).tasks@.push(entry)
                }
            }),
    {
        let entry = TrackedTask {
            uuid: task.get_uuid_clone(),
            last_command_received: task.get_last_command_received(),
        };
        let ghost before = self.tasks@;
        let ghost timeout = self.gc_timeout_ms;
        let mut i: usize = 0;
        while i < self.tasks.len()
            invariant
                self.tasks@ == before,
                self.gc_timeout_ms == timeout,
                before == old(self).tasks@,
                timeout == old(self).gc_timeout_ms,
                entry.uuid == task.uuid,
                entry.last_command_received == task.last_command_received,
                unique_uuids(before),
                i <= before.len(),
                forall|j: int| 0 <= j < i ==> before[j].uuid != entry.uuid,
            decreases before.len() - i,
        {
            if self.tasks[i].uuid == entry.uuid {
                self.tasks.set(i, entry);
                assert(has_uuid(before, entry.uuid));
                assert(self.tasks@ == before.update(i as int, entry));
                return;
            }
            i = i + 1;
        }
        self.tasks.push(entry);
    }

    /// How many tasks are registered.
    pub fn get_number_of_tasks(&self) -> (r: usize)
        ensures
            r == self.tasks@.len(),
    {
        self.tasks.len()
    }

    /// Removes every task that has been idle for more than the timeout at
    /// `now` and returns their identifiers, in registration order, so that each
    /// can be told that it is complete.
    pub fn do_garbage_collection(&mut self, now: u64) -> (r: Vec<u128>)
        requires
            old(self).well_formed(),
        ensures
            final(self).well_formed(),
            final(self).gc_timeout_ms == old(self).gc_timeout_ms,
            final(self).tasks@ == old(self).tasks@.filter(is_kept(old(self).gc_timeout_ms, now)),
            r@ == uuids_of(old(self).tasks@.filter(is_collected(old(self).gc_timeout_ms, now))),
            r@.len() + final(self).tasks@.len() == old(self).tasks@.len(),
    {
        let ghost before = self.tasks@;
        let timeout = self.gc_timeout_ms;
        let mut kept: Vec<TrackedTask> = Vec::new();
        let mut removed: Vec<u128> = Vec::new();
        let mut i: usize = 0;
        while i < self.tasks.len()
            invariant
                self.tasks@ == before,
                self.gc_timeout_ms == timeout,
                unique_uuids(before),
                i <= before.len(),
                kept@ == before.take(i as int).filter(is_kept(timeout, now)),
                removed@ == uuids_of(before.take(i as int).filter(is_collected(timeout, now))),
                kept@.len() + removed@.len() == i,
                unique_uuids(kept@),
                forall|k: int|
                    0 <= k < kept@.len() ==> exists|j: int| 0 <= j < i && before[j] == #[trigger] kept@[k],
            decreases before.len() - i,
        {
            let t = self.tasks[i];
            proof {
                assert(before.take(i + 1) == before.take(i as int).push(t));
                before.take(i as int).lemma_filter_push(t, is_kept(timeout, now));
                before.take(i as int).lemma_filter_push(t, is_collected(timeout, now));
            }
            if now > t.last_command_received && ((now - t.last_command_received) as u128) > (timeout as u128)
                * 1_000_000 {
                removed.push(t.uuid);
                proof {
                    assert(is_collected(timeout, now)(t));
                    assert(!is_kept(timeout, now)(t));
                    assert(before.take(i + 1).filter(is_kept(timeout, now)) == before.take(
                        i as int,
                    ).filter(is_kept(timeout, now)));
                    assert(before.take(i + 1).filter(is_collected(timeout, now)) == before.take(
                        i as int,
                    ).filter(is_collected(timeout, now)).push(t));
                    assert(uuids_of(before.take(i as int).filter(is_collected(timeout, now)).push(t))
                        == uuids_of(before.take(i as int).filter(is_collected(timeout, now))).push(t.uuid));
                }
            } else {
                proof {
                    assert forall|k: int| 0 <= k < kept@.len() implies kept@[k].uuid != t.uuid by {
                        let j = choose|j: int| 0 <= j < i && before[j] == #[trigger] kept@[k];
                        assert(before[j] == kept@[k]);
                    }
                }
                kept.push(t);
                proof {
                    assert(!is_collected(timeout, now)(t));
                    assert(is_kept(timeout, now)(t));
                    assert(before.take(i + 1).filter(is_kept(timeout, now)) == before.take(
                        i as int,
                    ).filter(is_kept(timeout, now)).push(t));
                    assert(before.take(i + 1).filter(is_collected(timeout, now)) == before.take(
                        i as int,
                    ).filter(is_collected(timeout, now)));
                    assert forall|k: int| 0 <= k < kept@.len() implies exists|j: int|
                        0 <= j < i + 1 && before[j] == #[trigger] kept@[k] by {
                        if k == kept@.len() - 1 {
                            assert(before[i as int] == kept@[k]);
                        } else {
                            let j = choose|j: int| 0 <= j < i && before[j] == #[trigger] kept@[k];
                            assert(before[j] == kept@[k]);
                        }
                    }
                }
            }
            i = i + 1;
        }
        proof {
            assert(before.take(before.len() as int) == before);
        }
        self.tasks = kept;
        removed
    }
}

/// After a collection at `now`, no remaining task is collectable at `now`, every
/// removed identifier belonged to a collectable task, and every task that was not
/// collectable is still registered.
pub proof fn law_collection_removes_exactly_the_idle(tasks: Seq<TrackedTask>, gc_timeout_ms: u64, now: u64)
    ensures
        forall|k: int|
            0 <= k < tasks.filter(is_kept(gc_timeout_ms, now)).len() ==> !collectable(
                #[trigger] tasks.filter(is_kept(gc_timeout_ms, now))[k],
                gc_timeout_ms,
                now,
            ),
        forall|k: int|
            0 <= k < tasks.filter(is_collected(gc_timeout_ms, now)).len() ==> collectable(
                #[trigger] tasks.filter(is_collected(gc_timeout_ms, now))[k],
                gc_timeout_ms,
                now,
            ),
        forall|t: TrackedTask|
            tasks.contains(t) && !collectable(t, gc_timeout_ms, now) ==> #[trigger] tasks.filter(
                is_kept(gc_timeout_ms, now),
            ).contains(t),
{
    broadcast use vstd::seq_lib::group_filter_ensures;

    assert forall|t: TrackedTask| tasks.contains(t) && !collectable(t, gc_timeout_ms, now) implies #[trigger] tasks.filter(
        is_kept(gc_timeout_ms, now),
    ).contains(t) by {
        let i = choose|i: int| 0 <= i < tasks.len() && tasks[i] == t;
        assert(is_kept(gc_timeout_ms, now)(tasks[i]));
    }
}

/// A task that received a command no more than the timeout before `now` is not
/// collectable at `now`: a collection keeps it.
pub proof fn law_recent_task_is_kept(t: TrackedTask, gc_timeout_ms: u64, now: u64)
    requires
        now <= t.last_command_received + gc_timeout_ms * 1_000_000,
    ensures
        !collectable(t, gc_timeout_ms, now),
{
}

} // verus!
