//! Submission of command buffers: pooled fences and command buffers, and completion tokens.
//!
//! A submission goes through stages, with one Vulkan call between any two: a command buffer is
//! taken from the pool or allocated, begun, recorded and ended; a fence is taken from the pool
//! and reset, or created; the work is submitted; a synchronous submission then waits for the
//! fence, and an asynchronous one hands out a [`VulkanSubmission`].
use vstd::prelude::*;

use crate::command::{Cleanup, Command};
use crate::device::lifetime;
use crate::device::{DeviceView, VulkanDevice};
use crate::error;
use crate::error::{backend_error, map_vk_err, GpuError, GpuErrorView};
use crate::vk;

verus! {

/// Progress of a submission.
#[derive(Clone, Copy, PartialEq, Eq, Structural, Debug)]
pub enum SubmissionStatus {
    Pending,
    Complete,
}

/// Asynchronous submission. It owns a pooled fence and command buffer until it completes, and
/// gives them back exactly once; a wait that times out leaves both with it.
pub struct VulkanSubmission {
    cycle_id: u64,
    state: Option<(u64, u64)>,
}

/// What an asynchronous submission comes to: it is done already, or its commands are to be
/// recorded and submitted.
pub enum AsyncPlan {
    Done(VulkanSubmission),
    Record(Vec<Command>),
}

/// Contents of a [`VulkanSubmission`]: `state` holds the fence and the command buffer until
/// completion.
pub struct SubmissionView {
    pub cycle_id: u64,
    pub state: Option<(u64, u64)>,
}

impl View for VulkanSubmission {
    type V = SubmissionView;

    closed spec fn view(&self) -> SubmissionView {
        SubmissionView { cycle_id: self.cycle_id, state: self.state }
    }
}

/// Device after the fence and command buffer of a finished submission went back to the pools.
pub open spec fn recycled(v: DeviceView, fence: u64, cmd: u64) -> DeviceView {
    DeviceView { free_fences: v.free_fences.push(fence), free_cmds: v.free_cmds.push(cmd), ..v }
}

/// Nanoseconds of a duration of whole seconds and a rest, or the largest number that a fence
/// wait takes.
pub open spec fn nanoseconds(secs: u64, subsec_nanos: u32) -> int {
    let total = secs * 1_000_000_000 + subsec_nanos;
    if total > u64::MAX {
        u64::MAX as int
    } else {
        total
    }
}

/// Timeout of a fence wait.
pub fn timeout_ns(secs: u64, subsec_nanos: u32) -> (ns: u64)
    ensures
        ns == nanoseconds(secs, subsec_nanos),
{
    assert(secs as u128 * 1_000_000_000 <= u64::MAX as u128 * 1_000_000_000);
    let total: u128 = secs as u128 * 1_000_000_000 + subsec_nanos as u128;
    if total > u64::MAX as u128 {
        u64::MAX
    } else {
        total as u64
    }
}

/// Outcome of allocating a command buffer.
pub fn cmd_allocated(result: Result<u64, i32>) -> (r: Result<u64, GpuError>)
    ensures
        match (result, r) {
            (Ok(c), Ok(cmd)) => cmd == c,
            (Err(code), Err(e)) => e@ == error::backend_failure("allocate command buffer"@, code),
            _ => false,
        },
{
    match result {
        Ok(cmd) => Ok(cmd),
        Err(code) => Err(backend_error("allocate command buffer", code)),
    }
}

/// Outcome of beginning a command buffer.
pub fn cmd_begun(result: Result<(), i32>) -> (r: Result<(), GpuError>)
    ensures
        match (result, r) {
            (Ok(_), Ok(_)) => true,
            (Err(code), Err(e)) => e@ == error::backend_failure("begin command buffer"@, code),
            _ => false,
        },
{
    match result {
        Ok(_) => Ok(()),
        Err(code) => Err(backend_error("begin command buffer", code)),
    }
}

/// Outcome of resetting a pooled fence.
pub fn fence_reset(result: Result<(), i32>) -> (r: Result<(), GpuError>)
    ensures
        match (result, r) {
            (Ok(_), Ok(_)) => true,
            (Err(code), Err(e)) => e@ == error::backend_failure("vkResetFences"@, code),
            _ => false,
        },
{
    match result {
        Ok(_) => Ok(()),
        Err(code) => Err(backend_error("vkResetFences", code)),
    }
}

/// Outcome of creating a fence.
pub fn fence_created(result: Result<u64, i32>) -> (r: Result<u64, GpuError>)
    ensures
        match (result, r) {
            (Ok(f), Ok(fence)) => fence == f,
            (Err(code), Err(e)) => e@ == error::backend_failure("vkCreateFence"@, code),
            _ => false,
        },
{
    match result {
        Ok(fence) => Ok(fence),
        Err(code) => Err(backend_error("vkCreateFence", code)),
    }
}

/// Outcome of recording and ending a command buffer: the first of the two that failed.
pub open spec fn recording_fault(
    recorded: Result<(), GpuError>,
    ended: Result<(), i32>,
) -> Option<GpuErrorView> {
    match recorded {
        Err(e) => Some(e@),
        Ok(_) => match ended {
            Err(code) => Some(error::backend_failure("vkEndCommandBuffer"@, code)),
            Ok(_) => None,
        },
    }
}

impl VulkanDevice {
    /// Number of asynchronous submissions that have not completed.
    pub fn in_flight(&self) -> (n: u64)
        ensures
            n == self@.in_flight,
    {
        self.in_flight
    }

    /// Takes the command buffer that was released last out of the pool. `None` means that one
    /// is to be allocated.
    pub fn acquire_cmd(&mut self) -> (cmd: Option<u64>)
        requires
            old(self)@.wf(),
        ensures
            final(self)@.wf(),
            match cmd {
                Some(c) => old(self)@.free_cmds.len() > 0 && c == old(self)@.free_cmds.last()
                    && final(self)@ == (DeviceView {
                    free_cmds: old(self)@.free_cmds.drop_last(),
                    ..old(self)@
                }),
                None => old(self)@.free_cmds.len() == 0 && final(self)@ == old(self)@,
            },
    {
        let ghost v = self@;
        let cmd = self.free_cmds.pop();
        proof {
            if cmd is None {
                assert(self@ =~= v);
            } else {
                assert(self@ =~= DeviceView { free_cmds: v.free_cmds.drop_last(), ..v });
            }
            lifetime::lemma_same_tables_wf(v, self@);
        }
        cmd
    }

    /// Returns a command buffer that the GPU has finished to the pool.
    pub fn release_cmd(&mut self, cmd: u64)
        requires
            old(self)@.wf(),
        ensures
            final(self)@.wf(),
            final(self)@ == (DeviceView {
                free_cmds: old(self)@.free_cmds.push(cmd),
                ..old(self)@
            }),
    {
        let ghost v = self@;
        self.free_cmds.push(cmd);
        proof {
            assert(self@ =~= DeviceView { free_cmds: v.free_cmds.push(cmd), ..v });
            lifetime::lemma_same_tables_wf(v, self@);
        }
    }

    /// Takes the fence that was released last out of the pool; it is then to be reset. `None`
    /// means that one is to be created.
    pub fn acquire_fence(&mut self) -> (fence: Option<u64>)
        requires
            old(self)@.wf(),
        ensures
            final(self)@.wf(),
            match fence {
                Some(f) => old(self)@.free_fences.len() > 0 && f == old(self)@.free_fences.last()
                    && final(self)@ == (DeviceView {
                    free_fences: old(self)@.free_fences.drop_last(),
                    ..old(self)@
                }),
                None => old(self)@.free_fences.len() == 0 && final(self)@ == old(self)@,
            },
    {
        let ghost v = self@;
        let fence = self.free_fences.pop();
        proof {
            if fence is None {
                assert(self@ =~= v);
            } else {
                assert(self@ =~= DeviceView { free_fences: v.free_fences.drop_last(), ..v });
            }
            lifetime::lemma_same_tables_wf(v, self@);
        }
        fence
    }

    /// Submission of a recorded command list that is then waited for: outcome of ending the list,
    /// and the pooled fence to submit it with, if there is one.
    pub fn submit_and_wait(&mut self, ended: Result<(), i32>) -> (r: Result<Option<u64>, GpuError>)
        requires
            old(self)@.wf(),
        ensures
            final(self)@.wf(),
            match (ended, r) {
                (Ok(_), Ok(Some(f))) => old(self)@.free_fences.len() > 0 && f
                    == old(self)@.free_fences.last() && final(self)@ == (DeviceView {
                    free_fences: old(self)@.free_fences.drop_last(),
                    ..old(self)@
                }),
                (Ok(_), Ok(None)) => old(self)@.free_fences.len() == 0 && final(self)@
                    == old(self)@,
                (Err(code), Err(e)) => e@ == error::backend_failure("end_command_buffer"@, code)
                    && final(self)@ == old(self)@,
                _ => false,
            },
    {
        match ended {
            Ok(_) => Ok(self.acquire_fence()),
            Err(code) => Err(backend_error("end_command_buffer", code)),
        }
    }

    /// Returns the fence and command buffer of a submission to the pools.
    fn recycle(&mut self, fence: u64, cmd: u64)
        requires
            old(self)@.wf(),
        ensures
            final(self)@.wf(),
            final(self)@ == recycled(old(self)@, fence, cmd),
    {
        let ghost v = self@;
        self.free_fences.push(fence);
        self.free_cmds.push(cmd);
        proof {
            assert(self@ =~= recycled(v, fence, cmd));
            lifetime::lemma_same_tables_wf(v, self@);
        }
    }

    /// Outcome of recording a synchronous submission, once its command buffer has been ended.
    /// A failed one goes back to the pool.
    pub fn recorded(&mut self, cmd: u64, result: Result<(), GpuError>) -> (r: Result<(), GpuError>)
        requires
            old(self)@.wf(),
        ensures
            final(self)@.wf(),
            match (result, r) {
                (Ok(_), Ok(_)) => final(self)@ == old(self)@,
                (Err(e0), Err(e)) => e@ == e0@ && final(self)@ == (DeviceView {
                    free_cmds: old(self)@.free_cmds.push(cmd),
                    ..old(self)@
                }),
                _ => false,
            },
    {
        match result {
            Ok(_) => Ok(()),
            Err(e) => {
                self.release_cmd(cmd);
                Err(e)
            },
        }
    }

    /// Outcome of recording and ending an asynchronous submission. A failed one goes back to
    /// the pool.
    pub fn recorded_async(
        &mut self,
        cmd: u64,
        recorded: Result<(), GpuError>,
        ended: Result<(), i32>,
    ) -> (r: Result<(), GpuError>)
        requires
            old(self)@.wf(),
        ensures
            final(self)@.wf(),
            match r {
                Ok(_) => recording_fault(recorded, ended) is None && final(self)@ == old(self)@,
                Err(e) => recording_fault(recorded, ended) == Some(e@) && final(self)@
                    == (DeviceView {
                    free_cmds: old(self)@.free_cmds.push(cmd),
                    ..old(self)@
                }),
            },
    {
        match recorded {
            Err(e) => {
                self.release_cmd(cmd);
                Err(e)
            },
            Ok(_) => match ended {
                Err(code) => {
                    self.release_cmd(cmd);
                    Err(backend_error("vkEndCommandBuffer", code))
                },
                Ok(_) => Ok(()),
            },
        }
    }

    /// Outcome of submitting synchronous work. If it was refused, the GPU never saw the fence
    /// and the command buffer, and both go back to the pools.
    pub fn submitted(&mut self, cmd: u64, fence: u64, result: Result<(), i32>) -> (r: Result<
        (),
        GpuError,
    >)
        requires
            old(self)@.wf(),
        ensures
            final(self)@.wf(),
            match (result, r) {
                (Ok(_), Ok(_)) => final(self)@ == old(self)@,
                (Err(code), Err(e)) => e@ == error::vk_error_view("vkQueueSubmit"@, code)
                    && final(self)@ == recycled(old(self)@, fence, cmd),
                _ => false,
            },
    {
        match result {
            Ok(_) => Ok(()),
            Err(code) => {
                self.recycle(fence, cmd);
                Err(map_vk_err("vkQueueSubmit", code))
            },
        }
    }

    /// Outcome of waiting for synchronous work. If the wait failed, the GPU may still use the
    /// command buffer: it is not reused, and the fence is destroyed.
    pub fn waited(&mut self, cmd: u64, fence: u64, result: Result<(), i32>) -> (r: (
        Result<(), GpuError>,
        Option<Cleanup>,
    ))
        requires
            old(self)@.wf(),
        ensures
            final(self)@.wf(),
            match (result, r.0) {
                (Ok(_), Ok(_)) => final(self)@ == recycled(old(self)@, fence, cmd) && r.1 is None,
                (Err(code), Err(e)) => e@ == error::vk_error_view("vkWaitForFences"@, code)
                    && final(self)@ == old(self)@ && r.1 == Some(Cleanup::DestroyFence(fence)),
                _ => false,
            },
    {
        match result {
            Ok(_) => {
                self.recycle(fence, cmd);
                (Ok(()), None)
            },
            Err(code) => (
                Err(map_vk_err("vkWaitForFences", code)),
                Some(Cleanup::DestroyFence(fence)),
            ),
        }
    }

    /// Outcome of submitting asynchronous work: a token that owns the fence and the command
    /// buffer. If the work was refused, both go back to the pools.
    pub fn submitted_async(
        &mut self,
        cycle_id: u64,
        cmd: u64,
        fence: u64,
        result: Result<(), i32>,
    ) -> (r: Result<VulkanSubmission, GpuError>)
        requires
            old(self)@.wf(),
            old(self)@.in_flight < u64::MAX,
        ensures
            final(self)@.wf(),
            match (result, r) {
                (Ok(_), Ok(s)) => s@.cycle_id == cycle_id && s@.state == Some((fence, cmd))
                    && final(self)@ == (DeviceView {
                    in_flight: (old(self)@.in_flight + 1) as u64,
                    ..old(self)@
                }),
                (Err(code), Err(e)) => e@ == error::vk_error_view("vkQueueSubmit"@, code)
                    && final(self)@ == recycled(old(self)@, fence, cmd),
                _ => false,
            },
    {
        match result {
            Ok(_) => {
                let ghost v = self@;
                self.in_flight = self.in_flight + 1;
                proof {
                    assert(self@ =~= DeviceView { in_flight: (v.in_flight + 1) as u64, ..v });
                    lifetime::lemma_same_tables_wf(v, self@);
                }
                Ok(VulkanSubmission { cycle_id, state: Some((fence, cmd)) })
            },
            Err(code) => {
                self.recycle(fence, cmd);
                Err(map_vk_err("vkQueueSubmit", code))
            },
        }
    }
}

/// Device after the submission with the given fence and command buffer completes.
pub open spec fn completed(v: DeviceView, fence: u64, cmd: u64) -> DeviceView {
    lifetime::submission_completed(recycled(v, fence, cmd))
}

/// Device and submission after a poll that finds the fence with this status.
pub open spec fn after_poll(v: DeviceView, s: SubmissionView, status: Result<bool, i32>) -> (
    DeviceView,
    SubmissionView,
) {
    match (s.state, status) {
        (Some((fence, cmd)), Ok(true)) => (
            completed(v, fence, cmd),
            SubmissionView { state: None, ..s },
        ),
        _ => (v, s),
    }
}

/// Device and submission after a wait for the fence with this outcome.
pub open spec fn after_wait(v: DeviceView, s: SubmissionView, waited: Result<(), i32>) -> (
    DeviceView,
    SubmissionView,
) {
    match (s.state, waited) {
        (Some((fence, cmd)), Ok(_)) => (
            completed(v, fence, cmd),
            SubmissionView { state: None, ..s },
        ),
        _ => (v, s),
    }
}

/// Device after a submission is abandoned; `waited` says whether waiting for its fence
/// succeeded.
pub open spec fn after_abandon(v: DeviceView, s: SubmissionView, waited: bool) -> DeviceView {
    match s.state {
        None => v,
        Some((fence, cmd)) => if waited {
            completed(v, fence, cmd)
        } else {
            lifetime::submission_completed(v)
        },
    }
}

impl VulkanSubmission {
    /// Submission without work: it is complete from the start.
    pub fn done(cycle_id: u64) -> (s: Self)
        ensures
            s@.cycle_id == cycle_id,
            s@.state is None,
    {
        VulkanSubmission { cycle_id, state: None }
    }

    pub fn cycle_id(&self) -> (id: u64)
        ensures
            id == self@.cycle_id,
    {
        self.cycle_id
    }

    /// Fence to ask or to wait for; `None` once the submission is complete.
    pub fn fence(&self) -> (fence: Option<u64>)
        ensures
            fence == (match self@.state {
                Some((f, _)) => Some(f),
                None => None,
            }),
    {
        match self.state {
            Some((fence, _)) => Some(fence),
            None => None,
        }
    }

    /// Gives the fence and the command buffer back.
    fn complete(&mut self, dev: &mut VulkanDevice) -> (steps: Vec<Cleanup>)
        requires
            old(dev)@.wf(),
            old(self)@.state is Some,
        ensures
            final(dev)@.wf(),
            final(self)@.cycle_id == old(self)@.cycle_id,
            final(self)@.state is None,
            final(dev)@ == completed(
                old(dev)@,
                old(self)@.state->Some_0.0,
                old(self)@.state->Some_0.1,
            ),
            steps@ == lifetime::completion_cleanup(old(dev)@),
    {
        if let Some((fence, cmd)) = self.state {
            dev.recycle(fence, cmd);
        }
        self.state = None;
        dev.release_in_flight()
    }

    /// What a poll makes of the status of the fence: `Ok(true)` if it is signaled. A submission
    /// that is complete already takes no notice of it.
    pub fn poll(&mut self, dev: &mut VulkanDevice, status: Result<bool, i32>) -> (r: (
        Result<SubmissionStatus, GpuError>,
        Vec<Cleanup>,
    ))
        requires
            old(dev)@.wf(),
        ensures
            final(dev)@.wf(),
            (final(dev)@, final(self)@) == after_poll(old(dev)@, old(self)@, status),
            match old(self)@.state {
                None => r.0 == Ok::<SubmissionStatus, GpuError>(SubmissionStatus::Complete)
                    && r.1@.len() == 0,
                Some(_) => match status {
                    Err(code) => r.0 is Err && r.0->Err_0@ == error::vk_error_view(
                        "vkGetFenceStatus"@,
                        code,
                    ) && r.1@.len() == 0,
                    Ok(false) => r.0 == Ok::<SubmissionStatus, GpuError>(
                        SubmissionStatus::Pending,
                    ) && r.1@.len() == 0,
                    Ok(true) => r.0 == Ok::<SubmissionStatus, GpuError>(
                        SubmissionStatus::Complete,
                    ) && r.1@ == lifetime::completion_cleanup(old(dev)@),
                },
            },
    {
        if self.state.is_none() {
            return (Ok(SubmissionStatus::Complete), Vec::new());
        }
        match status {
            Err(code) => (Err(map_vk_err("vkGetFenceStatus", code)), Vec::new()),
            Ok(false) => (Ok(SubmissionStatus::Pending), Vec::new()),
            Ok(true) => {
                let steps = self.complete(dev);
                (Ok(SubmissionStatus::Complete), steps)
            },
        }
    }

    /// What a wait makes of the outcome of waiting for the fence. A submission that is complete
    /// already takes no notice of it.
    pub fn wait(&mut self, dev: &mut VulkanDevice, waited: Result<(), i32>) -> (r: (
        Result<(), GpuError>,
        Vec<Cleanup>,
    ))
        requires
            old(dev)@.wf(),
        ensures
            final(dev)@.wf(),
            (final(dev)@, final(self)@) == after_wait(old(dev)@, old(self)@, waited),
            match old(self)@.state {
                None => r.0 is Ok && r.1@.len() == 0,
                Some(_) => match waited {
                    Err(code) => r.0 is Err && r.0->Err_0@ == (if code == vk::TIMEOUT {
                        GpuErrorView::Timeout
                    } else {
                        error::vk_error_view("vkWaitForFences"@, code)
                    }) && r.1@.len() == 0,
                    Ok(_) => r.0 is Ok && r.1@ == lifetime::completion_cleanup(old(dev)@),
                },
            },
    {
        if self.state.is_none() {
            return (Ok(()), Vec::new());
        }
        match waited {
            Err(code) => if code == vk::TIMEOUT {
                (Err(GpuError::Timeout), Vec::new())
            } else {
                (Err(map_vk_err("vkWaitForFences", code)), Vec::new())
            },
            Ok(_) => {
                let steps = self.complete(dev);
                (Ok(()), steps)
            },
        }
    }

    /// Ends a submission that nobody waits for any more. Dropping a pending token must not
    /// recycle what the GPU still uses, so its fence has been waited for: `waited` says whether
    /// that succeeded. After a failure the fence is destroyed and the command buffer is left to
    /// its pool.
    pub fn abandon(self, dev: &mut VulkanDevice, waited: bool) -> (steps: Vec<Cleanup>)
        requires
            old(dev)@.wf(),
        ensures
            final(dev)@.wf(),
            final(dev)@ == after_abandon(old(dev)@, self@, waited),
            match self@.state {
                None => steps@.len() == 0,
                Some((fence, _)) => if waited {
                    steps@ == lifetime::completion_cleanup(old(dev)@)
                } else {
                    steps@ == seq![Cleanup::DestroyFence(fence)] + lifetime::completion_cleanup(
                        old(dev)@,
                    )
                },
            },
    {
        match self.state {
            None => Vec::new(),
            Some((fence, cmd)) => if waited {
                dev.recycle(fence, cmd);
                dev.release_in_flight()
            } else {
                let mut steps: Vec<Cleanup> = Vec::new();
                steps.push(Cleanup::DestroyFence(fence));
                let mut rest = dev.release_in_flight();
                let ghost tail = rest@;
                steps.append(&mut rest);
                assert(steps@ =~= seq![Cleanup::DestroyFence(fence)] + tail);
                steps
            },
        }
    }
}

// ── Laws ───────────────────────────────────────────────────────────────────────

/// A submission that completes gives its fence and its command buffer back to the pools, and
/// counts as in flight no more. It does so once: whatever a later poll or wait finds, and when
/// the token goes, nothing more happens to any state of the device.
pub proof fn completion_returns_objects_once(
    v: DeviceView,
    s: SubmissionView,
    later: DeviceView,
    status: Result<bool, i32>,
    waited: Result<(), i32>,
    dropped: bool,
)
    requires
        s.state is Some,
    ensures
        after_poll(v, s, Ok(true)) == after_wait(v, s, Ok(())),
        after_abandon(v, s, true) == after_wait(v, s, Ok(())).0,
        ({
            let (fence, cmd) = s.state->Some_0;
            let (n, t) = after_wait(v, s, Ok(()));
            &&& n.free_fences == v.free_fences.push(fence)
            &&& n.free_cmds == v.free_cmds.push(cmd)
            &&& v.in_flight > 0 ==> n.in_flight == v.in_flight - 1
            &&& t.cycle_id == s.cycle_id
            &&& after_poll(later, t, status) == (later, t)
            &&& after_wait(later, t, waited) == (later, t)
            &&& after_abandon(later, t, dropped) == later
        }),
{
    let (fence, cmd) = s.state->Some_0;
    let r = recycled(v, fence, cmd);
    lifetime::lemma_released(r, r.deferred, r.deferred.len() as int);
}

/// A wait that times out or fails, and a poll that finds the fence not signaled or fails, leave
/// fence and command buffer with the submission, and the device as it is.
pub proof fn unfinished_submission_keeps_its_objects(
    v: DeviceView,
    s: SubmissionView,
    code: i32,
)
    ensures
        after_wait(v, s, Err(code)) == (v, s),
        after_poll(v, s, Ok(false)) == (v, s),
        after_poll(v, s, Err(code)) == (v, s),
{
}

/// A submission that is abandoned although its fence could not be waited for returns neither
/// fence nor command buffer to the pools.
pub proof fn failed_wait_recycles_nothing(v: DeviceView, s: SubmissionView)
    ensures
        after_abandon(v, s, false).free_fences == v.free_fences,
        after_abandon(v, s, false).free_cmds == v.free_cmds,
{
    lifetime::lemma_released(v, v.deferred, v.deferred.len() as int);
}

/// A timeout is the number of its nanoseconds: one more second is a billion more, one more
/// nanosecond is one more, and what a fence wait cannot express is the longest wait.
pub proof fn timeout_counts_nanoseconds(secs: u64, subsec_nanos: u32)
    ensures
        0 <= nanoseconds(secs, subsec_nanos) <= u64::MAX,
        nanoseconds(0, subsec_nanos) == subsec_nanos,
        nanoseconds(secs, subsec_nanos) < u64::MAX ==> nanoseconds(secs, subsec_nanos)
            == 1_000_000_000 * secs + subsec_nanos,
        1_000_000_000 * secs + subsec_nanos >= u64::MAX ==> nanoseconds(secs, subsec_nanos)
            == u64::MAX,
{
}

/// A recording that failed counts before an end that failed; there is a fault exactly where one
/// of them failed.
pub proof fn first_recording_fault_counts(recorded: Result<(), GpuError>, ended: Result<(), i32>)
    ensures
        recording_fault(recorded, ended) is None <==> recorded is Ok && ended is Ok,
        recorded matches Err(e) ==> recording_fault(recorded, ended) == Some(e@),
        recorded is Ok && ended is Err ==> recording_fault(recorded, ended)->0 is Backend,
{
}

/// A submission that completes returns its own fence to the fences and its own command buffer
/// to the command buffers, so that the next submission takes just these.
pub proof fn returned_objects_are_taken_next(v: DeviceView, fence: u64, cmd: u64)
    ensures
        recycled(v, fence, cmd).free_fences.last() == fence,
        recycled(v, fence, cmd).free_cmds.last() == cmd,
        recycled(v, fence, cmd).free_fences.drop_last() == v.free_fences,
        recycled(v, fence, cmd).free_cmds.drop_last() == v.free_cmds,
        recycled(v, fence, cmd).in_flight == v.in_flight,
        recycled(v, fence, cmd).deferred == v.deferred,
{
    assert(recycled(v, fence, cmd).free_fences.drop_last() =~= v.free_fences);
    assert(recycled(v, fence, cmd).free_cmds.drop_last() =~= v.free_cmds);
}

} // verus!
