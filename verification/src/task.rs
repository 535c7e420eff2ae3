//! The ownership-safe task and channel layer: a [`Task`] exclusively owns
//! one native task handle, its [`AIChannelCollection`] grants channel
//! creation and introspection through a non-owning copy of that handle, and
//! an [`AIChannel`] is a lightweight handle-plus-name pair constructed on
//! demand. Every operation is verified against the driver model in
//! [`crate::driver`].

use crate::driver::{channels_of, has_handle, lemma_index_of_handle, name_live, name_of, Driver};
use crate::parse::{
    contains_nul, flatten_spec, lemma_unflatten_flatten, nul_free, unflatten_channel_string,
    unflatten_spec, valid_channel_name,
};
use crate::protocol::{protocol_decide, ProtocolStep};
use crate::status::{
    Error, DAQ_ERROR_DUPLICATE_TASK, DAQ_ERROR_INVALID_TASK, DAQ_ERROR_MEMORY,
    ERROR_INDEX_OUT_OF_RANGE, ERROR_INVALID_NAME, ERROR_PROTOCOL_NO_CONVERGENCE,
};
use vstd::prelude::*;

verus! {

/// The retry cap of the buffered-string protocol: a driver whose reported
/// sizes keep changing between calls could otherwise oscillate forever.
pub const MAX_PROTOCOL_ROUNDS: usize = 8;

/// One physical channel within a task: a non-owning copy of the task's
/// handle plus the physical-channel name it was created under. Constructed
/// on demand; never cached or interned.
pub struct AIChannel {
    pub task_handle: u64,
    pub name: String,
}

/// The per-task channel view: a non-owning copy of the parent task's
/// handle and nothing else — every query re-derives driver-side truth.
#[derive(Clone, Copy)]
pub struct AIChannelCollection {
    pub task_handle: u64,
}

/// An owned acquisition task: the sole owner of its native handle. A
/// handle of zero is the released sentinel; [`Task::release`] clears the
/// driver-side task exactly once and then leaves the sentinel behind.
pub struct Task {
    pub handle: u64,
    pub ai_channels: AIChannelCollection,
}

/// The driver-visible effect of successfully creating the task `t` under
/// `name`: a fresh live handle owning an empty channel list, the name newly
/// live, and every prior task untouched.
pub open spec fn task_created(pre: Driver, post: Driver, t: Task, name: Seq<char>) -> bool {
    &&& !name_live(pre, name)
    &&& t.handle != 0
    &&& t.ai_channels.task_handle == t.handle
    &&& !has_handle(pre, t.handle)
    &&& has_handle(post, t.handle)
    &&& name_of(post, t.handle) == name
    &&& channels_of(post, t.handle).len() == 0
    &&& forall|n: Seq<char>|
        #[trigger] name_live(post, n) <==> (name_live(pre, n) || n == name)
    &&& forall|h2: u64|
        #[trigger] has_handle(pre, h2) ==> has_handle(post, h2) && channels_of(post, h2)
            == channels_of(pre, h2) && name_of(post, h2) == name_of(pre, h2)
    &&& forall|h2: u64| #[trigger] has_handle(post, h2) ==> has_handle(pre, h2) || h2 == t.handle
}

/// The driver-visible effect of clearing the task with handle `h`: the
/// handle and its name are gone, everything else is untouched.
pub open spec fn task_cleared(pre: Driver, post: Driver, h: u64) -> bool {
    &&& has_handle(pre, h)
    &&& !has_handle(post, h)
    &&& forall|n: Seq<char>|
        #[trigger] name_live(post, n) <==> (name_live(pre, n) && n != name_of(pre, h))
    &&& forall|h2: u64| h2 != h ==> (#[trigger] has_handle(post, h2) <==> has_handle(pre, h2))
    &&& forall|h2: u64|
        h2 != h && #[trigger] has_handle(pre, h2) ==> channels_of(post, h2) == channels_of(
            pre,
            h2,
        ) && name_of(post, h2) == name_of(pre, h2)
}

/// The driver-visible effect of successfully attaching the channel `name`
/// to the task with handle `h`: the name joins the end of that task's
/// channel list, which did not hold it before, and every other task is
/// untouched.
pub open spec fn chan_added(pre: Driver, post: Driver, h: u64, name: Seq<char>) -> bool {
    &&& has_handle(pre, h)
    &&& has_handle(post, h)
    &&& valid_channel_name(name)
    &&& !channels_of(pre, h).contains(name)
    &&& channels_of(post, h) == channels_of(pre, h).push(name)
    &&& name_of(post, h) == name_of(pre, h)
    &&& forall|h2: u64| #[trigger] has_handle(post, h2) <==> has_handle(pre, h2)
    &&& forall|h2: u64|
        h2 != h && #[trigger] has_handle(pre, h2) ==> channels_of(post, h2) == channels_of(
            pre,
            h2,
        ) && name_of(post, h2) == name_of(pre, h2)
    &&& forall|n: Seq<char>| #[trigger] name_live(post, n) <==> name_live(pre, n)
}

/// What one call of [`Task::release`] does: the task value carries the
/// released sentinel afterwards, and the driver is touched only if the
/// sentinel was not already set and the handle was live.
pub open spec fn release_step(pre_t: Task, post_t: Task, pre_d: Driver, post_d: Driver) -> bool {
    &&& post_t.handle == 0
    &&& post_t.ai_channels == pre_t.ai_channels
    &&& pre_t.handle == 0 ==> post_d == pre_d
    &&& pre_t.handle != 0 && !has_handle(pre_d, pre_t.handle) ==> post_d == pre_d
    &&& pre_t.handle != 0 && has_handle(pre_d, pre_t.handle) ==> task_cleared(
        pre_d,
        post_d,
        pre_t.handle,
    )
}

impl Task {
    /// Registers a new acquisition task under `name` with the driver. A
    /// name with an embedded null byte is refused before the driver is
    /// called; a name already held by a live task is refused by the driver
    /// with the duplicate-task code; otherwise the returned task uniquely
    /// owns the fresh handle and an empty channel collection bound to it.
    /// On failure no handle is retained.
    pub fn new(driver: &mut Driver, name: &str) -> (r: Result<Task, Error>)
        requires
            old(driver).wf(),
        ensures
            final(driver).wf(),
            !nul_free(name@) ==> (r matches Err(e) && e.code == ERROR_INVALID_NAME)
                && *final(driver) == *old(driver),
            nul_free(name@) && name_live(*old(driver), name@) ==> (r matches Err(e) && e.code
                == DAQ_ERROR_DUPLICATE_TASK) && *final(driver) == *old(driver),
            nul_free(name@) && !name_live(*old(driver), name@) && old(driver).next_handle
                == u64::MAX ==> (r matches Err(e) && e.code == DAQ_ERROR_MEMORY)
                && *final(driver) == *old(driver),
            nul_free(name@) && !name_live(*old(driver), name@) && old(driver).next_handle
                < u64::MAX ==> (r matches Ok(t) && task_created(
                *old(driver),
                *final(driver),
                t,
                name@,
            )),
            r is Ok <==> (nul_free(name@) && !name_live(*old(driver), name@)
                && old(driver).next_handle < u64::MAX),
    {
        if contains_nul(name) {
            return Err(Error::from_code(ERROR_INVALID_NAME));
        }
        let (code, handle) = driver.create_task(name);
        if code < 0 {
            Err(Error::from_code(code))
        } else {
            Ok(Task { handle, ai_channels: AIChannelCollection { task_handle: handle } })
        }
    }

    /// Releases the native task exactly once, best-effort: a failing
    /// driver-side clear is not surfaced, and the handle is zeroed so that
    /// even a defensive second call sends no second release to the driver.
    pub fn release(&mut self, driver: &mut Driver)
        requires
            old(driver).wf(),
        ensures
            final(driver).wf(),
            release_step(*old(self), *final(self), *old(driver), *final(driver)),
    {
        if self.handle != 0 {
            // best-effort cleanup: the status code is deliberately dropped
            driver.clear_task(self.handle);
            self.handle = 0;
        }
    }
}

impl AIChannelCollection {
    /// Creates an analog-voltage input channel on the parent task, named
    /// identically to its physical channel, with the given voltage range
    /// (in microvolts, a fixed-point stand-in for the driver's floating
    /// range) and the default terminal configuration and voltage units.
    /// A name with an embedded null byte is refused before the driver is
    /// called; driver refusals surface their code unchanged.
    pub fn add_ai_voltage_chan(
        &self,
        driver: &mut Driver,
        physical_channel: &str,
        min_microvolts: i64,
        max_microvolts: i64,
    ) -> (r: Result<AIChannel, Error>)
        requires
            old(driver).wf(),
        ensures
            final(driver).wf(),
            !nul_free(physical_channel@) ==> (r matches Err(e) && e.code == ERROR_INVALID_NAME)
                && *final(driver) == *old(driver),
            nul_free(physical_channel@) && !has_handle(*old(driver), self.task_handle) ==> (
            r matches Err(e) && e.code == DAQ_ERROR_INVALID_TASK) && *final(driver) == *old(
                driver,
            ),
            has_handle(*old(driver), self.task_handle) && nul_free(physical_channel@)
                && !valid_channel_name(physical_channel@) ==> (r matches Err(e) && e.code
                == crate::status::DAQ_ERROR_PHYSICAL_CHAN_INVALID) && *final(driver) == *old(
                driver,
            ),
            has_handle(*old(driver), self.task_handle) && valid_channel_name(physical_channel@)
                && channels_of(*old(driver), self.task_handle).contains(physical_channel@) ==> (
            r matches Err(e) && e.code == crate::status::DAQ_ERROR_CHAN_ALREADY_IN_TASK)
                && *final(driver) == *old(driver),
            has_handle(*old(driver), self.task_handle) && valid_channel_name(physical_channel@)
                && !channels_of(*old(driver), self.task_handle).contains(physical_channel@)
                && flatten_spec(
                channels_of(*old(driver), self.task_handle).push(physical_channel@),
            ).len() + 1 > crate::driver::MAX_STRING_SIZE ==> (r matches Err(e) && e.code
                == DAQ_ERROR_MEMORY) && *final(driver) == *old(driver),
            has_handle(*old(driver), self.task_handle) && valid_channel_name(physical_channel@)
                && !channels_of(*old(driver), self.task_handle).contains(physical_channel@)
                && flatten_spec(
                channels_of(*old(driver), self.task_handle).push(physical_channel@),
            ).len() + 1 <= crate::driver::MAX_STRING_SIZE ==> (r matches Ok(ch) && ch.task_handle
                == self.task_handle && ch.name@ == physical_channel@ && chan_added(
                *old(driver),
                *final(driver),
                self.task_handle,
                physical_channel@,
            )),
            r is Ok <==> (has_handle(*old(driver), self.task_handle) && valid_channel_name(
                physical_channel@,
            ) && !channels_of(*old(driver), self.task_handle).contains(physical_channel@)
                && flatten_spec(
                channels_of(*old(driver), self.task_handle).push(physical_channel@),
            ).len() + 1 <= crate::driver::MAX_STRING_SIZE),
    {
        if contains_nul(physical_channel) {
            return Err(Error::from_code(ERROR_INVALID_NAME));
        }
        let code = driver.create_ai_voltage_chan(
            self.task_handle,
            physical_channel,
            min_microvolts,
            max_microvolts,
        );
        if code < 0 {
            Err(Error::from_code(code))
        } else {
            Ok(
                AIChannel {
                    task_handle: self.task_handle,
                    name: String::from_str(physical_channel),
                },
            )
        }
    }

    /// The names of all channels attached to the parent task, in
    /// driver-reported order, retrieved through the buffered-string
    /// protocol and parsed by [`unflatten_channel_string`]. Nothing is
    /// cached: each call re-derives the list from the driver.
    pub fn channel_names(&self, driver: &Driver) -> (r: Result<Vec<String>, Error>)
        requires
            driver.wf(),
        ensures
            !has_handle(*driver, self.task_handle) ==> (r matches Err(e) && e.code
                == DAQ_ERROR_INVALID_TASK),
            has_handle(*driver, self.task_handle) ==> (r matches Ok(v) && v.deep_view()
                == unflatten_spec(flatten_spec(channels_of(*driver, self.task_handle)))),
            has_handle(*driver, self.task_handle) && channels_of(
                *driver,
                self.task_handle,
            ).len() >= 1 ==> (r matches Ok(v) && v.deep_view() == channels_of(
                *driver,
                self.task_handle,
            )),
            r is Ok <==> has_handle(*driver, self.task_handle),
    {
        let h = self.task_handle;
        let ghost needed = flatten_spec(channels_of(*driver, h)).len() + 1;
        let mut buf_size: usize = 0;
        let mut rounds: usize = 0;
        while rounds < MAX_PROTOCOL_ROUNDS
            invariant
                driver.wf(),
                h == self.task_handle,
                needed == flatten_spec(channels_of(*driver, h)).len() + 1,
                has_handle(*driver, h) ==> {
                    &&& rounds <= 1
                    &&& (rounds == 0 ==> buf_size == 0)
                    &&& (rounds == 1 ==> buf_size == needed)
                },
                !has_handle(*driver, h) ==> rounds == 0,
            decreases MAX_PROTOCOL_ROUNDS - rounds,
        {
            let (code, data) = driver.get_task_channels(h, buf_size);
            match protocol_decide(buf_size, code) {
                ProtocolStep::Restart => {
                    buf_size = 0;
                },
                ProtocolStep::Fetch { size } => {
                    proof {
                        assert(has_handle(*driver, h));
                        assert(needed <= crate::driver::MAX_STRING_SIZE);
                        assert(code == needed);
                        assert(size == needed);
                    }
                    buf_size = size;
                },
                ProtocolStep::Fail => {
                    proof {
                        assert(!has_handle(*driver, h));
                        assert(code == DAQ_ERROR_INVALID_TASK);
                    }
                    return Err(Error::from_code(code));
                },
                ProtocolStep::Accept => {
                    proof {
                        assert(has_handle(*driver, h));
                        assert(data@ == flatten_spec(channels_of(*driver, h)));
                    }
                    let names = unflatten_channel_string(data.as_str());
                    proof {
                        let chans = channels_of(*driver, h);
                        if chans.len() >= 1 {
                            lemma_index_of_handle(*driver, h);
                            let ti = crate::driver::task_index(*driver, h);
                            assert(forall|k: int|
                                0 <= k < chans.len() ==> chans[k]
                                    == driver.tasks@[ti].channels@[k]@);
                            assert(forall|k: int|
                                0 <= k < chans.len() ==> valid_channel_name(#[trigger] chans[k]));
                            lemma_unflatten_flatten(chans);
                        }
                    }
                    return Ok(names);
                },
            }
            rounds = rounds + 1;
        }
        proof {
            assert(false);
        }
        Err(Error::from_code(ERROR_PROTOCOL_NO_CONVERGENCE))
    }

    /// The channel at `index` of [`Self::channel_names`]. An index at or
    /// beyond the list length is a caller bug by contract: it is refused
    /// with its own error class rather than folded into driver failures,
    /// so the collection keeps its sharp, array-like indexing contract
    /// while the library's verified code stays panic-free.
    pub fn channel_at(&self, driver: &Driver, index: usize) -> (r: Result<AIChannel, Error>)
        requires
            driver.wf(),
        ensures
            !has_handle(*driver, self.task_handle) ==> (r matches Err(e) && e.code
                == DAQ_ERROR_INVALID_TASK),
            has_handle(*driver, self.task_handle) ==> {
                let names = unflatten_spec(flatten_spec(channels_of(*driver, self.task_handle)));
                &&& index < names.len() ==> (r matches Ok(ch) && ch.task_handle
                    == self.task_handle && ch.name@ == names[index as int])
                &&& index >= names.len() ==> (r matches Err(e) && e.code
                    == ERROR_INDEX_OUT_OF_RANGE)
            },
    {
        match self.channel_names(driver) {
            Err(e) => Err(e),
            Ok(names) => {
                if index < names.len() {
                    Ok(
                        AIChannel {
                            task_handle: self.task_handle,
                            name: names[index].clone(),
                        },
                    )
                } else {
                    Err(Error::from_code(ERROR_INDEX_OUT_OF_RANGE))
                }
            },
        }
    }
}

/// A task name is exclusive while its task is alive and is released for
/// reuse exactly when the task is cleared: after a successful creation the
/// name is live and no second task can be created under it, and after the
/// task is cleared the name is free again.
pub proof fn lemma_task_name_exclusive_until_released(
    pre: Driver,
    mid: Driver,
    post: Driver,
    t: Task,
    name: Seq<char>,
)
    requires
        task_created(pre, mid, t, name),
        task_cleared(mid, post, t.handle),
    ensures
        name_live(mid, name),
        forall|d2: Driver, t2: Task| !task_created(mid, d2, t2, name),
        !name_live(post, name),
{
}

/// A channel name is exclusive within its task: after a successful attach
/// the channel is in the task's list, a second attach of the same physical
/// channel cannot succeed, and the first stays independently retrievable —
/// the parsed channel-name list is exactly the attached channels, in
/// order.
pub proof fn lemma_duplicate_channel_excluded(pre: Driver, post: Driver, h: u64, name: Seq<char>)
    requires
        post.wf(),
        chan_added(pre, post, h, name),
    ensures
        channels_of(post, h).contains(name),
        forall|d2: Driver| !chan_added(post, d2, h, name),
        unflatten_spec(flatten_spec(channels_of(post, h))) == channels_of(post, h),
{
    let chans = channels_of(post, h);
    assert(chans.last() == name);
    assert(chans.contains(name));
    lemma_index_of_handle(post, h);
    let ti = crate::driver::task_index(post, h);
    assert(forall|k: int| 0 <= k < chans.len() ==> chans[k] == post.tasks@[ti].channels@[k]@);
    assert(forall|k: int| 0 <= k < chans.len() ==> valid_channel_name(#[trigger] chans[k]));
    lemma_unflatten_flatten(chans);
}

/// A task's name is released exactly once: the first release clears the
/// driver-side task and leaves the released sentinel in the task value,
/// and a second release of the same task does not touch the driver at
/// all.
pub proof fn lemma_release_exactly_once(
    t0: Task,
    t1: Task,
    t2: Task,
    d0: Driver,
    d1: Driver,
    d2: Driver,
)
    requires
        t0.handle != 0,
        has_handle(d0, t0.handle),
        release_step(t0, t1, d0, d1),
        release_step(t1, t2, d1, d2),
    ensures
        task_cleared(d0, d1, t0.handle),
        d2 == d1,
{
}

} // verus!
