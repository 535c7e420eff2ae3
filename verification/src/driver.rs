//! A verified model of the driver's process-global runtime, exactly at the
//! granularity of its documented call/return contract: named tasks are
//! registered under fresh nonzero handles, analog-input channels attach to a
//! task in creation order, and the channel list of a task is reported as one
//! `", "`-joined string through the buffer-size query of the buffered-string
//! protocol. Status codes follow the driver's convention: negative is a hard
//! error, zero is success, and positive values are warnings or, on a
//! zero-length probe, the required buffer size.
//!
//! The task layer in [`crate::task`] is verified against this model; a
//! deployment against the real driver exchanges only the call sites, not the
//! contracts.

use crate::parse::{
    flatten_channel_names, flatten_spec, is_valid_channel_name, lemma_flatten_push, nul_free,
    valid_channel_name,
};
use crate::status::{
    DAQ_ERROR_BUFFER_TOO_SMALL, DAQ_ERROR_CHAN_ALREADY_IN_TASK, DAQ_ERROR_DUPLICATE_TASK,
    DAQ_ERROR_INVALID_TASK, DAQ_ERROR_MEMORY, DAQ_ERROR_PHYSICAL_CHAN_INVALID,
};
use vstd::prelude::*;

verus! {

/// The size, terminator byte included, that no reported channel string may
/// reach, so that a required size always fits the status code.
pub const MAX_STRING_SIZE: usize = 0x7fffffff;

/// One registered task: its nonzero handle, its name, and its channels in
/// creation order.
pub struct TaskRecord {
    pub handle: u64,
    pub name: String,
    pub channels: Vec<String>,
}

/// The driver's global registry of live tasks.
pub struct Driver {
    pub tasks: Vec<TaskRecord>,
    pub next_handle: u64,
}

/// Whether `h` is the handle of a live task.
pub open spec fn has_handle(d: Driver, h: u64) -> bool {
    exists|i: int| 0 <= i < d.tasks@.len() && d.tasks@[i].handle == h
}

/// The registry index of the live task with handle `h`.
pub open spec fn task_index(d: Driver, h: u64) -> int {
    choose|i: int| 0 <= i < d.tasks@.len() && d.tasks@[i].handle == h
}

/// The name of the live task with handle `h`.
pub open spec fn name_of(d: Driver, h: u64) -> Seq<char> {
    d.tasks@[task_index(d, h)].name@
}

/// The channels of the live task with handle `h`, in creation order.
pub open spec fn channels_of(d: Driver, h: u64) -> Seq<Seq<char>> {
    d.tasks@[task_index(d, h)].channels.deep_view()
}

/// Whether some live task is registered under the name `n`.
pub open spec fn name_live(d: Driver, n: Seq<char>) -> bool {
    exists|i: int| 0 <= i < d.tasks@.len() && d.tasks@[i].name@ == n
}

impl Driver {
    /// The registry invariant: handles are nonzero, below the allocation
    /// cursor and pairwise distinct, task names are pairwise distinct, and
    /// each task's channels are valid names, pairwise distinct within the
    /// task, and short enough in total that the flattened list plus its
    /// terminator fits a status code.
    pub open spec fn wf(self) -> bool {
        &&& self.next_handle >= 1
        &&& forall|i: int|
            0 <= i < self.tasks@.len() ==> (#[trigger] self.tasks@[i]).handle != 0
        &&& forall|i: int|
            0 <= i < self.tasks@.len() ==> (#[trigger] self.tasks@[i]).handle < self.next_handle
        &&& forall|i: int, j: int|
            0 <= i < j < self.tasks@.len() ==> (#[trigger] self.tasks@[i].handle) != (
            #[trigger] self.tasks@[j].handle)
        &&& forall|i: int, j: int|
            0 <= i < j < self.tasks@.len() ==> (#[trigger] self.tasks@[i].name@) != (
            #[trigger] self.tasks@[j].name@)
        &&& forall|i: int, k: int|
            0 <= i < self.tasks@.len() && 0 <= k < self.tasks@[i].channels@.len()
                ==> valid_channel_name(#[trigger] self.tasks@[i].channels@[k]@)
        &&& forall|i: int, k: int, l: int|
            0 <= i < self.tasks@.len() && 0 <= k < l < self.tasks@[i].channels@.len() ==> (
            #[trigger] self.tasks@[i].channels@[k]@) != (#[trigger] self.tasks@[i].channels@[l]@)
        &&& forall|i: int|
            0 <= i < self.tasks@.len() ==> flatten_spec(
                (#[trigger] self.tasks@[i]).channels.deep_view(),
            ).len() + 1 <= MAX_STRING_SIZE
    }

    /// A fresh driver: no task is registered.
    pub fn new() -> (d: Driver)
        ensures
            d.wf(),
            d.tasks@.len() == 0,
            forall|h: u64| !has_handle(d, h),
            forall|n: Seq<char>| !name_live(d, n),
    {
        Driver { tasks: Vec::new(), next_handle: 1 }
    }
}

/// The registry index `i` and the handle `d.tasks@[i].handle` name each
/// other uniquely in a well-formed driver.
pub proof fn lemma_task_index(d: Driver, i: int)
    requires
        d.wf(),
        0 <= i < d.tasks@.len(),
    ensures
        has_handle(d, d.tasks@[i].handle),
        task_index(d, d.tasks@[i].handle) == i,
{
    let h = d.tasks@[i].handle;
    assert(has_handle(d, h));
    let j = task_index(d, h);
    assert(0 <= j < d.tasks@.len() && d.tasks@[j].handle == h);
    if j < i {
        assert(d.tasks@[j].handle != d.tasks@[i].handle);
    }
    if i < j {
        assert(d.tasks@[i].handle != d.tasks@[j].handle);
    }
}

/// A live handle's registry index satisfies the bounds and matches the
/// handle.
pub proof fn lemma_index_of_handle(d: Driver, h: u64)
    requires
        has_handle(d, h),
    ensures
        0 <= task_index(d, h) < d.tasks@.len(),
        d.tasks@[task_index(d, h)].handle == h,
{
}

impl Driver {
    /// Looks a handle up in the registry.
    fn find_task(&self, h: u64) -> (r: Option<usize>)
        requires
            self.wf(),
        ensures
            match r {
                Some(i) => 0 <= i < self.tasks@.len() && self.tasks@[i as int].handle == h
                    && has_handle(*self, h) && task_index(*self, h) == i,
                None => !has_handle(*self, h),
            },
    {
        let mut i: usize = 0;
        while i < self.tasks.len()
            invariant
                i <= self.tasks@.len(),
                self.wf(),
                forall|j: int| 0 <= j < i ==> (#[trigger] self.tasks@[j]).handle != h,
            decreases self.tasks@.len() - i,
        {
            if self.tasks[i].handle == h {
                proof {
                    lemma_task_index(*self, i as int);
                }
                return Some(i);
            }
            i = i + 1;
        }
        None
    }

    /// Registers a new task under `name`. A name already held by a live
    /// task is refused with the duplicate-task code and the registry is
    /// untouched; otherwise the task is registered with no channels under a
    /// fresh nonzero handle. (Exhaustion of the handle space answers with
    /// the out-of-resources code.)
    pub fn create_task(&mut self, name: &str) -> (r: (i32, u64))
        requires
            old(self).wf(),
            nul_free(name@),
        ensures
            final(self).wf(),
            name_live(*old(self), name@) ==> r.0 == DAQ_ERROR_DUPLICATE_TASK && r.1 == 0
                && *final(self) == *old(self),
            !name_live(*old(self), name@) && old(self).next_handle == u64::MAX ==> r.0
                == DAQ_ERROR_MEMORY && r.1 == 0 && *final(self) == *old(self),
            !name_live(*old(self), name@) && old(self).next_handle < u64::MAX ==> {
                &&& r.0 == 0
                &&& r.1 != 0
                &&& !has_handle(*old(self), r.1)
                &&& has_handle(*final(self), r.1)
                &&& name_of(*final(self), r.1) == name@
                &&& channels_of(*final(self), r.1).len() == 0
                &&& forall|n: Seq<char>|
                    #[trigger] name_live(*final(self), n) <==> (name_live(*old(self), n) || n
                        == name@)
                &&& forall|h2: u64|
                    #[trigger] has_handle(*old(self), h2) ==> has_handle(*final(self), h2)
                        && channels_of(*final(self), h2) == channels_of(*old(self), h2) && name_of(
                        *final(self),
                        h2,
                    ) == name_of(*old(self), h2)
                &&& forall|h2: u64|
                    #[trigger] has_handle(*final(self), h2) ==> has_handle(*old(self), h2) || h2
                        == r.1
            },
    {
        let ghost pre = *old(self);
        let name_s = String::from_str(name);
        let mut i: usize = 0;
        while i < self.tasks.len()
            invariant
                i <= self.tasks@.len(),
                pre == *old(self),
                pre.wf(),
                *self == pre,
                name_s@ == name@,
                forall|j: int| 0 <= j < i ==> (#[trigger] self.tasks@[j]).name@ != name@,
            decreases self.tasks@.len() - i,
        {
            if self.tasks[i].name == name_s {
                proof {
                    assert(name_live(pre, name@));
                }
                return (DAQ_ERROR_DUPLICATE_TASK, 0);
            }
            i = i + 1;
        }
        proof {
            assert(!name_live(pre, name@));
        }
        if self.next_handle == u64::MAX {
            return (DAQ_ERROR_MEMORY, 0);
        }
        let h = self.next_handle;
        self.next_handle = h + 1;
        self.tasks.push(TaskRecord { handle: h, name: name_s, channels: Vec::new() });
        proof {
            let n = pre.tasks@.len() as int;
            assert(self.tasks@ == pre.tasks@.push(self.tasks@[n]));
            assert(self.tasks@[n].handle == h && self.tasks@[n].name@ == name@
                && self.tasks@[n].channels@.len() == 0);
            assert(self.tasks@[n].channels.deep_view() =~~= Seq::<Seq<char>>::empty());
            assert(forall|j: int| 0 <= j < n ==> self.tasks@[j] == pre.tasks@[j]);
            assert(self.wf());
            lemma_task_index(*self, n);
            assert(has_handle(*self, h));
            assert(name_of(*self, h) == name@);
            assert(channels_of(*self, h).len() == 0);
            assert(!has_handle(pre, h));
            assert forall|n2: Seq<char>| #[trigger] name_live(*self, n2) implies (name_live(
                pre,
                n2,
            ) || n2 == name@) by {
                let j = choose|j: int| 0 <= j < self.tasks@.len() && self.tasks@[j].name@ == n2;
                if j < n {
                    assert(name_live(pre, n2));
                }
            }
            assert forall|n2: Seq<char>| name_live(pre, n2) implies #[trigger] name_live(
                *self,
                n2,
            ) by {
                let j = choose|j: int| 0 <= j < pre.tasks@.len() && pre.tasks@[j].name@ == n2;
                assert(self.tasks@[j].name@ == n2);
            }
            assert(name_live(*self, name@));
            assert forall|h2: u64| #[trigger] has_handle(pre, h2) implies has_handle(*self, h2)
                && channels_of(*self, h2) == channels_of(pre, h2) && name_of(*self, h2) == name_of(
                pre,
                h2,
            ) by {
                lemma_index_of_handle(pre, h2);
                let j = task_index(pre, h2);
                assert(self.tasks@[j].handle == h2);
                assert(has_handle(*self, h2));
                lemma_task_index(pre, j);
                lemma_task_index(*self, j);
            }
            assert forall|h2: u64| #[trigger] has_handle(*self, h2) implies (has_handle(pre, h2)
                || h2 == h) by {
                let j = choose|j: int| 0 <= j < self.tasks@.len() && self.tasks@[j].handle == h2;
                if j < n {
                    assert(has_handle(pre, h2));
                }
            }
        }
        (0, h)
    }

    /// Releases the task with handle `h`: its handle and its name are gone
    /// from the registry and every other task is untouched. An unknown
    /// handle is refused with the invalid-task code.
    pub fn clear_task(&mut self, h: u64) -> (code: i32)
        requires
            old(self).wf(),
        ensures
            final(self).wf(),
            !has_handle(*old(self), h) ==> code == DAQ_ERROR_INVALID_TASK
                && *final(self) == *old(self),
            has_handle(*old(self), h) ==> {
                &&& code == 0
                &&& !has_handle(*final(self), h)
                &&& !name_live(*final(self), name_of(*old(self), h))
                &&& forall|h2: u64|
                    h2 != h ==> (#[trigger] has_handle(*final(self), h2) <==> has_handle(
                        *old(self),
                        h2,
                    ))
                &&& forall|h2: u64|
                    h2 != h && #[trigger] has_handle(*old(self), h2) ==> channels_of(
                        *final(self),
                        h2,
                    ) == channels_of(*old(self), h2) && name_of(*final(self), h2) == name_of(
                        *old(self),
                        h2,
                    )
                &&& forall|n: Seq<char>|
                    #[trigger] name_live(*final(self), n) <==> (name_live(*old(self), n) && n
                        != name_of(*old(self), h))
                &&& final(self).next_handle == old(self).next_handle
            },
    {
        let ghost pre = *old(self);
        let idx = match self.find_task(h) {
            None => { return DAQ_ERROR_INVALID_TASK },
            Some(i) => i,
        };
        self.tasks.remove(idx);
        proof {
            let i = idx as int;
            let n = pre.tasks@.len() as int;
            assert(self.tasks@ =~= pre.tasks@.subrange(0, i) + pre.tasks@.subrange(i + 1, n));
            assert(forall|j: int| 0 <= j < i ==> self.tasks@[j] == pre.tasks@[j]);
            assert(forall|j: int| i <= j < n - 1 ==> self.tasks@[j] == pre.tasks@[j + 1]);
            assert(self.wf());
            assert forall|h2: u64| #[trigger] has_handle(*self, h2) implies (has_handle(pre, h2)
                && h2 != h) by {
                let j = choose|j: int| 0 <= j < self.tasks@.len() && self.tasks@[j].handle == h2;
                let j2: int = if j < i { j } else { j + 1 };
                assert(pre.tasks@[j2].handle == h2);
                assert(has_handle(pre, h2));
                if h2 == h {
                    lemma_task_index(pre, j2);
                    lemma_task_index(pre, i);
                    assert(false);
                }
            }
            assert forall|h2: u64| h2 != h && #[trigger] has_handle(pre, h2) implies has_handle(
                *self,
                h2,
            ) && channels_of(*self, h2) == channels_of(pre, h2) && name_of(*self, h2) == name_of(
                pre,
                h2,
            ) by {
                lemma_index_of_handle(pre, h2);
                let j2 = task_index(pre, h2);
                assert(j2 != i);
                let j: int = if j2 < i { j2 } else { j2 - 1 };
                assert(self.tasks@[j] == pre.tasks@[j2]);
                assert(has_handle(*self, h2));
                lemma_task_index(*self, j);
                lemma_task_index(pre, j2);
            }
            assert(!has_handle(*self, h));
            lemma_task_index(pre, i);
            assert forall|n2: Seq<char>| #[trigger] name_live(*self, n2) implies (name_live(
                pre,
                n2,
            ) && n2 != name_of(pre, h)) by {
                let j = choose|j: int| 0 <= j < self.tasks@.len() && self.tasks@[j].name@ == n2;
                let j2: int = if j < i { j } else { j + 1 };
                assert(pre.tasks@[j2].name@ == n2);
                assert(name_live(pre, n2));
                if n2 == name_of(pre, h) {
                    assert(pre.tasks@[i].name@ == n2);
                    assert(false);
                }
            }
            assert forall|n2: Seq<char>|
                name_live(pre, n2) && n2 != name_of(pre, h) implies #[trigger] name_live(
                *self,
                n2,
            ) by {
                let j2 = choose|j: int| 0 <= j < pre.tasks@.len() && pre.tasks@[j].name@ == n2;
                assert(j2 != i);
                let j: int = if j2 < i { j2 } else { j2 - 1 };
                assert(self.tasks@[j].name@ == n2);
            }
        }
        0
    }

    /// Attaches an analog-voltage input channel to the task with handle
    /// `h`, named by its physical channel. The voltage range is accepted
    /// and passed through; it plays no part in channel identity, so the
    /// model does not retain it. Refused with the matching code when the
    /// handle names no live task, the physical-channel name is invalid, the
    /// channel is already in the task, or the flattened channel list would
    /// outgrow a status code.
    #[allow(unused_variables)]
    pub fn create_ai_voltage_chan(
        &mut self,
        h: u64,
        physical_channel: &str,
        min_microvolts: i64,
        max_microvolts: i64,
    ) -> (code: i32)
        requires
            old(self).wf(),
        ensures
            final(self).wf(),
            !has_handle(*old(self), h) ==> code == DAQ_ERROR_INVALID_TASK
                && *final(self) == *old(self),
            has_handle(*old(self), h) && !valid_channel_name(physical_channel@) ==> code
                == DAQ_ERROR_PHYSICAL_CHAN_INVALID && *final(self) == *old(self),
            has_handle(*old(self), h) && valid_channel_name(physical_channel@) && channels_of(
                *old(self),
                h,
            ).contains(physical_channel@) ==> code == DAQ_ERROR_CHAN_ALREADY_IN_TASK
                && *final(self) == *old(self),
            has_handle(*old(self), h) && valid_channel_name(physical_channel@) && !channels_of(
                *old(self),
                h,
            ).contains(physical_channel@) && flatten_spec(
                channels_of(*old(self), h).push(physical_channel@),
            ).len() + 1 > MAX_STRING_SIZE ==> code == DAQ_ERROR_MEMORY && *final(self) == *old(
                self,
            ),
            has_handle(*old(self), h) && valid_channel_name(physical_channel@) && !channels_of(
                *old(self),
                h,
            ).contains(physical_channel@) && flatten_spec(
                channels_of(*old(self), h).push(physical_channel@),
            ).len() + 1 <= MAX_STRING_SIZE ==> {
                &&& code == 0
                &&& channels_of(*final(self), h) == channels_of(*old(self), h).push(
                    physical_channel@,
                )
                &&& name_of(*final(self), h) == name_of(*old(self), h)
                &&& forall|h2: u64|
                    #[trigger] has_handle(*final(self), h2) <==> has_handle(*old(self), h2)
                &&& forall|h2: u64|
                    h2 != h && #[trigger] has_handle(*old(self), h2) ==> channels_of(
                        *final(self),
                        h2,
                    ) == channels_of(*old(self), h2) && name_of(*final(self), h2) == name_of(
                        *old(self),
                        h2,
                    )
                &&& forall|n: Seq<char>|
                    #[trigger] name_live(*final(self), n) <==> name_live(*old(self), n)
                &&& final(self).next_handle == old(self).next_handle
            },
    {
        let ghost pre = *old(self);
        let idx = match self.find_task(h) {
            None => { return DAQ_ERROR_INVALID_TASK },
            Some(i) => i,
        };
        if !is_valid_channel_name(physical_channel) {
            return DAQ_ERROR_PHYSICAL_CHAN_INVALID;
        }
        let ghost i = idx as int;
        let ghost chans = pre.tasks@[i].channels.deep_view();
        proof {
            assert(forall|k: int|
                0 <= k < chans.len() ==> chans[k] == pre.tasks@[i].channels@[k]@);
        }
        let pc = String::from_str(physical_channel);
        let mut k: usize = 0;
        while k < self.tasks[idx].channels.len()
            invariant
                pre == *old(self),
                pre.wf(),
                *self == pre,
                0 <= i < self.tasks@.len(),
                idx == i,
                has_handle(pre, h),
                task_index(pre, h) == i,
                chans == pre.tasks@[i].channels.deep_view(),
                k <= self.tasks@[i].channels@.len(),
                pc@ == physical_channel@,
                forall|j: int| 0 <= j < k ==> (#[trigger] self.tasks@[i].channels@[j])@ != pc@,
            decreases self.tasks@[i].channels@.len() - k,
        {
            if self.tasks[idx].channels[k] == pc {
                proof {
                    assert(chans[k as int] == self.tasks@[i].channels@[k as int]@);
                    assert(channels_of(pre, h).contains(physical_channel@));
                }
                return DAQ_ERROR_CHAN_ALREADY_IN_TASK;
            }
            k = k + 1;
        }
        proof {
            assert(forall|j: int| 0 <= j < chans.len() ==> chans[j] != physical_channel@);
            assert(!channels_of(pre, h).contains(physical_channel@));
            lemma_flatten_push(chans, pc@);
        }
        let flat = flatten_channel_names(&self.tasks[idx].channels);
        let flat_len = flat.unicode_len();
        let name_len = physical_channel.unicode_len();
        let fits = if self.tasks[idx].channels.len() == 0 {
            name_len <= MAX_STRING_SIZE - 1
        } else {
            flat_len <= MAX_STRING_SIZE - 3 && name_len <= MAX_STRING_SIZE - 3 - flat_len
        };
        proof {
            if chans.len() > 0 {
                assert(flatten_spec(chans.push(pc@)).len() == flat_len + 2 + name_len);
            }
            assert(fits <==> flatten_spec(chans.push(pc@)).len() + 1 <= MAX_STRING_SIZE);
        }
        if !fits {
            return DAQ_ERROR_MEMORY;
        }
        let mut rec = self.tasks.remove(idx);
        rec.channels.push(pc);
        self.tasks.insert(idx, rec);
        proof {
            let n = pre.tasks@.len() as int;
            assert(self.tasks@ =~= pre.tasks@.update(i, self.tasks@[i]));
            assert(forall|j: int| 0 <= j < n && j != i ==> self.tasks@[j] == pre.tasks@[j]);
            assert(self.tasks@[i].handle == pre.tasks@[i].handle);
            assert(self.tasks@[i].name == pre.tasks@[i].name);
            assert(self.tasks@[i].channels@ == pre.tasks@[i].channels@.push(pc));
            assert(self.tasks@[i].channels.deep_view() =~~= chans.push(physical_channel@));
            assert(self.wf());
            lemma_task_index(pre, i);
            lemma_task_index(*self, i);
            assert(channels_of(*self, h) == chans.push(physical_channel@));
            assert forall|h2: u64| #[trigger] has_handle(*self, h2) implies has_handle(
                pre,
                h2,
            ) by {
                let j = choose|j: int| 0 <= j < self.tasks@.len() && self.tasks@[j].handle == h2;
                assert(pre.tasks@[j].handle == h2);
            }
            assert forall|h2: u64| #[trigger] has_handle(pre, h2) implies has_handle(
                *self,
                h2,
            ) by {
                let j = choose|j: int| 0 <= j < pre.tasks@.len() && pre.tasks@[j].handle == h2;
                assert(self.tasks@[j].handle == h2);
            }
            assert forall|h2: u64| h2 != h && #[trigger] has_handle(pre, h2) implies channels_of(
                *self,
                h2,
            ) == channels_of(pre, h2) && name_of(*self, h2) == name_of(pre, h2) by {
                lemma_index_of_handle(pre, h2);
                let j = task_index(pre, h2);
                assert(j != i);
                lemma_task_index(pre, j);
                lemma_task_index(*self, j);
            }
            assert forall|n2: Seq<char>| #[trigger] name_live(*self, n2) implies name_live(
                pre,
                n2,
            ) by {
                let j = choose|j: int| 0 <= j < self.tasks@.len() && self.tasks@[j].name@ == n2;
                assert(pre.tasks@[j].name@ == n2);
            }
            assert forall|n2: Seq<char>| #[trigger] name_live(pre, n2) implies name_live(
                *self,
                n2,
            ) by {
                let j = choose|j: int| 0 <= j < pre.tasks@.len() && pre.tasks@[j].name@ == n2;
                assert(self.tasks@[j].name@ == n2);
            }
        }
        0
    }

    /// The buffer-size query of the buffered-string protocol, for the
    /// channel list of the task with handle `h`. A zero `buffer_size`
    /// answers with the required size, terminator included, as a positive
    /// status code; a non-zero but too small one with the too-small code;
    /// a large enough one with success and the full `", "`-joined list.
    pub fn get_task_channels(&self, h: u64, buffer_size: usize) -> (r: (i32, String))
        requires
            self.wf(),
        ensures
            !has_handle(*self, h) ==> r.0 == DAQ_ERROR_INVALID_TASK && r.1@.len() == 0,
            has_handle(*self, h) ==> {
                let needed = flatten_spec(channels_of(*self, h)).len() + 1;
                &&& buffer_size == 0 ==> r.0 == needed && r.1@.len() == 0
                &&& 0 < buffer_size < needed ==> r.0 == DAQ_ERROR_BUFFER_TOO_SMALL && r.1@.len()
                    == 0
                &&& buffer_size >= needed ==> r.0 == 0 && r.1@ == flatten_spec(
                    channels_of(*self, h),
                )
            },
    {
        let idx = match self.find_task(h) {
            None => { return (DAQ_ERROR_INVALID_TASK, String::new()) },
            Some(i) => i,
        };
        let flat = flatten_channel_names(&self.tasks[idx].channels);
        proof {
            assert(flat@ == flatten_spec(channels_of(*self, h)));
            assert(flat@.len() + 1 <= MAX_STRING_SIZE);
        }
        let needed = flat.unicode_len() + 1;
        if buffer_size == 0 {
            (needed as i32, String::new())
        } else if buffer_size < needed {
            (DAQ_ERROR_BUFFER_TOO_SMALL, String::new())
        } else {
            (0, flat)
        }
    }
}

} // verus!
