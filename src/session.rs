//! One observation session: the descriptors found at its start, each with the
//! state its sampler last reported, and the outcome once all have stopped.

use vstd::prelude::*;
use crate::error::SampleError;
use crate::sampler::SamplerState;

verus! {

/// A descriptor under watch and where its sampler stands.
#[derive(Clone, Copy, Debug, PartialEq, Eq, Structural)]
pub struct Watch {
    pub fd: u32,
    pub state: SamplerState,
}

/// How a session ended.
#[derive(Debug, PartialEq, Eq)]
pub enum Outcome {
    /// No descriptor referenced the file: nothing was observed.
    NothingToTrack,
    /// Every descriptor reached the end of the file.
    AllFinished,
    /// The descriptors that failed, each with its reason, in session order.
    SomeFailed(Vec<(u32, SampleError)>),
}

pub open spec fn all_stopped(ws: Seq<Watch>) -> bool {
    forall|i: int| 0 <= i < ws.len() ==> (#[trigger] ws[i]).state.is_terminal()
}

/// The failed descriptors of a session, in order.
pub open spec fn failures(ws: Seq<Watch>) -> Seq<(u32, SampleError)>
    decreases ws.len(),
{
    if ws.len() == 0 {
        Seq::empty()
    } else {
        let rest = failures(ws.drop_last());
        match ws.last().state {
            SamplerState::Failed(e) => rest.push((ws.last().fd, e)),
            _ => rest,
        }
    }
}

proof fn lemma_no_failures(ws: Seq<Watch>)
    requires
        all_stopped(ws),
        failures(ws).len() == 0,
    ensures
        forall|i: int| 0 <= i < ws.len() ==> (#[trigger] ws[i]).state == SamplerState::Finished,
    decreases ws.len(),
{
    if ws.len() > 0 {
        let init = ws.drop_last();
        assert forall|i: int| 0 <= i < init.len() implies (#[trigger] init[i]).state.is_terminal() by {
            assert(init[i] == ws[i]);
        }
        lemma_no_failures(init);
        assert forall|i: int| 0 <= i < ws.len() implies (#[trigger] ws[i]).state == SamplerState::Finished by {
            if i < init.len() {
                assert(init[i] == ws[i]);
            } else {
                assert(ws[i].state.is_terminal());
            }
        }
    }
}

impl Outcome {
    /// The process's exit code: zero unless some descriptor failed.
    pub fn exit_code(&self) -> (c: i32)
        ensures
            c == (if self is SomeFailed { 1i32 } else { 0i32 }),
    {
        match self {
            Outcome::SomeFailed(_) => 1,
            _ => 0,
        }
    }
}

pub struct Session {
    watches: Vec<Watch>,
}

impl View for Session {
    type V = Seq<Watch>;

    closed spec fn view(&self) -> Seq<Watch> {
        self.watches@
    }
}

impl Session {
    /// A session over the descriptors that resolution found, all running.
    pub fn new(fds: &Vec<u32>) -> (s: Session)
        ensures
            s@.len() == fds@.len(),
            forall|i: int| 0 <= i < fds@.len() ==> (#[trigger] s@[i]) == (Watch {
                fd: fds@[i],
                state: SamplerState::Running,
            }),
    {
        let mut watches: Vec<Watch> = Vec::new();
        let mut i: usize = 0;
        while i < fds.len()
            invariant
                i <= fds@.len(),
                watches@.len() == i,
                forall|k: int| 0 <= k < i ==> (#[trigger] watches@[k]) == (Watch {
                    fd: fds@[k],
                    state: SamplerState::Running,
                }),
            decreases fds@.len() - i,
        {
            watches.push(Watch { fd: fds[i], state: SamplerState::Running });
            i = i + 1;
        }
        Session { watches }
    }

    pub fn len(&self) -> (n: usize)
        ensures
            n == self@.len(),
    {
        self.watches.len()
    }

    pub fn watch(&self, i: usize) -> (w: Watch)
        requires
            i < self@.len(),
        ensures
            w == self@[i as int],
    {
        self.watches[i]
    }

    /// Records what the sampler of the `i`-th descriptor reported. The other
    /// descriptors keep their states: one that failed stops no other.
    pub fn report(&mut self, i: usize, state: SamplerState)
        requires
            i < old(self)@.len(),
        ensures
            final(self)@ == old(self)@.update(i as int, Watch { fd: old(self)@[i as int].fd, state }),
            forall|k: int| 0 <= k < old(self)@.len() && k != i ==> #[trigger] final(self)@[k] == old(self)@[k],
    {
        let fd = self.watches[i].fd;
        self.watches.set(i, Watch { fd, state });
    }

    /// Whether every sampler has stopped, finished or failed.
    pub fn is_complete(&self) -> (r: bool)
        ensures
            r == all_stopped(self@),
    {
        let mut i: usize = 0;
        while i < self.watches.len()
            invariant
                i <= self@.len(),
                forall|k: int| 0 <= k < i ==> (#[trigger] self@[k]).state.is_terminal(),
            decreases self@.len() - i,
        {
            match self.watches[i].state {
                SamplerState::Running => {
                    return false;
                },
                _ => {},
            }
            i = i + 1;
        }
        true
    }

    /// The outcome of a session whose samplers have all stopped: success
    /// only where every descriptor finished, else the list of failures.
    pub fn outcome(&self) -> (o: Outcome)
        requires
            all_stopped(self@),
        ensures
            self@.len() == 0 <==> o is NothingToTrack,
            o is AllFinished <==> (self@.len() > 0 && forall|i: int|
                0 <= i < self@.len() ==> (#[trigger] self@[i]).state == SamplerState::Finished),
            o is SomeFailed <==> failures(self@).len() > 0,
            o matches Outcome::SomeFailed(v) ==> v@ == failures(self@),
    {
        if self.watches.len() == 0 {
            return Outcome::NothingToTrack;
        }
        let mut failed: Vec<(u32, SampleError)> = Vec::new();
        let mut i: usize = 0;
        while i < self.watches.len()
            invariant
                i <= self@.len(),
                failed@ == failures(self@.take(i as int)),
            decreases self@.len() - i,
        {
            assert(self@.take(i + 1).drop_last() =~= self@.take(i as int));
            let w = self.watches[i];
            match w.state {
                SamplerState::Failed(e) => {
                    failed.push((w.fd, e));
                },
                _ => {},
            }
            i = i + 1;
        }
        assert(self@.take(i as int) =~= self@);
        if failed.len() == 0 {
            proof {
                lemma_no_failures(self@);
            }
            Outcome::AllFinished
        } else {
            assert(!forall|i: int|
                0 <= i < self@.len() ==> (#[trigger] self@[i]).state == SamplerState::Finished) by {
                if forall|i: int| 0 <= i < self@.len() ==> (#[trigger] self@[i]).state == SamplerState::Finished {
                    lemma_all_finished_no_failures(self@);
                }
            }
            Outcome::SomeFailed(failed)
        }
    }
}

proof fn lemma_all_finished_no_failures(ws: Seq<Watch>)
    requires
        forall|i: int| 0 <= i < ws.len() ==> (#[trigger] ws[i]).state == SamplerState::Finished,
    ensures
        failures(ws).len() == 0,
    decreases ws.len(),
{
    if ws.len() > 0 {
        let init = ws.drop_last();
        assert forall|i: int| 0 <= i < init.len() implies (#[trigger] init[i]).state == SamplerState::Finished by {
            assert(init[i] == ws[i]);
        }
        lemma_all_finished_no_failures(init);
        assert(ws[ws.len() - 1].state == SamplerState::Finished);
    }
}

} // verus!
