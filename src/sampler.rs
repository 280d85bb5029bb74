//! The decisions of one descriptor's sampling loop. The loop itself (read
//! the status record, show the offset, wait) runs around a [`Sampler`]: it
//! hands each read to [`Sampler::step`] and does what the returned [`Step`] says.

use vstd::prelude::*;
use vstd::string::StringSliceAdditionalSpecFns;
use crate::error::SampleError;
use crate::fdinfo::{get_pos_from_fdinfo, record_pos};

verus! {

/// The time between two reads of a status record.
pub const POLL_INTERVAL_MS: u64 = 100;

#[derive(Clone, Copy, Debug, PartialEq, Eq, Structural)]
pub enum SamplerState {
    Running,
    /// An offset equal to the file's size was seen.
    Finished,
    Failed(SampleError),
}

impl SamplerState {
    pub open spec fn is_terminal(self) -> bool {
        self != SamplerState::Running
    }
}

/// What the loop does after one read.
#[derive(Clone, Copy, Debug, PartialEq, Eq, Structural)]
pub enum Step {
    /// Show this offset, wait the interval and read again.
    Continue(u64),
    /// Show this offset, which is the file's size, and stop: the descriptor is done.
    Finish(u64),
    /// Mark the descriptor failed, for this reason, and stop.
    Fail(SampleError),
}

/// The step that follows a read of the status record: `None` where it could
/// not be read. An offset is shown as it is, also one smaller than the last.
pub open spec fn next_step(total: u64, record: Option<Seq<u8>>) -> Step {
    match record {
        None => Step::Fail(SampleError::DescriptorGone),
        Some(s) => match record_pos(s) {
            None => Step::Fail(SampleError::MalformedStatusRecord),
            Some(p) => if p == total {
                Step::Finish(p)
            } else {
                Step::Continue(p)
            },
        },
    }
}

pub open spec fn state_after(step: Step) -> SamplerState {
    match step {
        Step::Continue(_) => SamplerState::Running,
        Step::Finish(_) => SamplerState::Finished,
        Step::Fail(e) => SamplerState::Failed(e),
    }
}

pub open spec fn record_bytes(record: Option<&str>) -> Option<Seq<u8>> {
    match record {
        Some(c) => Some(c.spec_bytes()),
        None => None,
    }
}

/// The sampling of one descriptor of the observed process.
pub struct Sampler {
    pub fd: u32,
    /// The size of the file, read when the descriptor was found.
    pub total: u64,
    /// The time to wait after a [`Step::Continue`].
    pub interval_ms: u64,
    pub state: SamplerState,
}

impl Sampler {
    pub fn new(fd: u32, total: u64) -> (s: Sampler)
        ensures
            s.fd == fd,
            s.total == total,
            s.interval_ms == POLL_INTERVAL_MS,
            s.state == SamplerState::Running,
    {
        Sampler { fd, total, interval_ms: POLL_INTERVAL_MS, state: SamplerState::Running }
    }

    pub fn is_running(&self) -> (r: bool)
        ensures
            r == (self.state == SamplerState::Running),
    {
        match self.state {
            SamplerState::Running => true,
            _ => false,
        }
    }

    /// Takes one read of the status record, `None` where the read failed, and
    /// says what to do next. A failed read ends the sampler with
    /// `DescriptorGone`, whatever was read before: it is never retried.
    pub fn step(&mut self, record: Option<&str>) -> (s: Step)
        requires
            old(self).state == SamplerState::Running,
        ensures
            s == next_step(old(self).total, record_bytes(record)),
            final(self).state == state_after(s),
            final(self).fd == old(self).fd,
            final(self).total == old(self).total,
            final(self).interval_ms == old(self).interval_ms,
            record is None ==> s == Step::Fail(SampleError::DescriptorGone),
    {
        let s = match record {
            None => Step::Fail(SampleError::DescriptorGone),
            Some(contents) => match get_pos_from_fdinfo(contents) {
                Ok(p) => if p == self.total {
                    Step::Finish(p)
                } else {
                    Step::Continue(p)
                },
                Err(e) => Step::Fail(e),
            },
        };
        self.state = match s {
            Step::Continue(_) => SamplerState::Running,
            Step::Finish(_) => SamplerState::Finished,
            Step::Fail(e) => SamplerState::Failed(e),
        };
        s
    }
}

} // verus!
