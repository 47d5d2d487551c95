use vstd::prelude::*;

use crate::config::VoiceVoxConfig;

verus! {

/// What the speech backend reported back to one `say` in progress.
#[derive(PartialEq, Eq, Structural, Clone, Copy, Debug)]
pub enum SayEvent {
    /// The synthesis query was obtained.
    QueryReady,
    /// The synthesis query could not be obtained.
    QueryFailed,
    /// An attempt produced audio that decoded.
    AttemptDecoded,
    /// An attempt failed, in the request or in decoding.
    AttemptFailed,
}

/// What to do next for one `say`.
#[derive(PartialEq, Eq, Structural, Clone, Copy, Debug)]
pub enum SayAction {
    /// Request audio for the query and try to decode it.
    Synthesize,
    /// Append the decoded audio to the playback queue; the `say` succeeded.
    Enqueue,
    /// The query step failed; the `say` fails without retrying.
    FailQuery,
    /// Every attempt failed; the `say` fails with the retry limit exceeded.
    FailRetryLimit,
}

/// The retry budget of one `say` and the attempts made so far.
#[derive(PartialEq, Eq, Structural, Clone, Copy, Debug)]
pub struct SayState {
    pub max_retry: u64,
    pub attempts: u64,
}

pub open spec fn next_after(attempts: u64, max_retry: u64) -> SayAction {
    if attempts < max_retry {
        SayAction::Synthesize
    } else {
        SayAction::FailRetryLimit
    }
}

/// One step of the retry policy: a fixed budget of attempts, no backoff.
pub open spec fn say_step(s: SayState, ev: SayEvent) -> (SayState, SayAction) {
    match ev {
        SayEvent::QueryFailed => (s, SayAction::FailQuery),
        SayEvent::QueryReady => (s, next_after(s.attempts, s.max_retry)),
        SayEvent::AttemptDecoded => (SayState { attempts: (s.attempts + 1) as u64, ..s }, SayAction::Enqueue),
        SayEvent::AttemptFailed => {
            let n = (s.attempts + 1) as u64;
            (SayState { attempts: n, ..s }, next_after(n, s.max_retry))
        },
    }
}

/// The state and the actions after feeding a sequence of events, in order.
pub open spec fn say_run(s: SayState, evs: Seq<SayEvent>) -> (SayState, Seq<SayAction>)
    decreases evs.len(),
{
    if evs.len() == 0 {
        (s, Seq::empty())
    } else {
        let (s1, acts) = say_run(s, evs.drop_last());
        let (s2, a) = say_step(s1, evs.last());
        (s2, acts.push(a))
    }
}

pub open spec fn failed_attempts(n: nat) -> Seq<SayEvent> {
    Seq::new(n, |i: int| SayEvent::AttemptFailed)
}

impl SayState {
    /// Applies one event and returns the next action.
    pub fn step(&mut self, ev: SayEvent) -> (r: SayAction)
        requires
            ev == SayEvent::AttemptDecoded || ev == SayEvent::AttemptFailed ==> old(self).attempts < old(self).max_retry,
        ensures
            (*final(self), r) == say_step(*old(self), ev),
    {
        match ev {
            SayEvent::QueryFailed => SayAction::FailQuery,
            SayEvent::QueryReady => {
                if self.attempts < self.max_retry {
                    SayAction::Synthesize
                } else {
                    SayAction::FailRetryLimit
                }
            },
            SayEvent::AttemptDecoded => {
                self.attempts = self.attempts + 1;
                SayAction::Enqueue
            },
            SayEvent::AttemptFailed => {
                self.attempts = self.attempts + 1;
                if self.attempts < self.max_retry {
                    SayAction::Synthesize
                } else {
                    SayAction::FailRetryLimit
                }
            },
        }
    }
}

/// The speech synthesizer's policy: how many attempts one utterance gets.
pub struct TTS {
    pub max_retry: u64,
}

impl TTS {
    pub fn new(voicevox_config: &VoiceVoxConfig) -> (r: Self)
        ensures
            r.max_retry == voicevox_config.max_retry,
    {
        TTS { max_retry: voicevox_config.max_retry }
    }

    /// The state of a `say` that has not made any attempt yet.
    pub fn begin_say(&self) -> (r: SayState)
        ensures
            r == (SayState { max_retry: self.max_retry, attempts: 0 }),
    {
        SayState { max_retry: self.max_retry, attempts: 0 }
    }
}

/// After the query and `j` failed attempts (`j` at most the budget), `j`
/// attempts were made, each failure but a last one at the budget asked for
/// another attempt, and the budget decides the last action.
pub proof fn lemma_failures(max_retry: u64, j: nat)
    requires
        j <= max_retry,
    ensures
        ({
            let (s, acts) = say_run(
                SayState { max_retry, attempts: 0 },
                seq![SayEvent::QueryReady] + failed_attempts(j),
            );
            &&& s.attempts == j
            &&& s.max_retry == max_retry
            &&& acts.len() == j + 1
            &&& forall|i: int| 0 <= i < j ==> acts[i] == SayAction::Synthesize
            &&& acts[j as int] == next_after(j as u64, max_retry)
        }),
    decreases j,
{
    let s0 = SayState { max_retry, attempts: 0 };
    let evs = seq![SayEvent::QueryReady] + failed_attempts(j);
    if j == 0 {
        assert(evs.drop_last() =~= Seq::<SayEvent>::empty());
        assert(say_run(s0, evs.drop_last()) == (s0, Seq::<SayAction>::empty()));
        assert(evs.last() == SayEvent::QueryReady);
    } else {
        let prev = seq![SayEvent::QueryReady] + failed_attempts((j - 1) as nat);
        lemma_failures(max_retry, (j - 1) as nat);
        assert(evs.drop_last() =~= prev);
        assert(evs.last() == SayEvent::AttemptFailed);
        let (s1, acts1) = say_run(s0, prev);
        let (s, acts) = say_run(s0, evs);
        assert(acts == acts1.push(next_after((s1.attempts + 1) as u64, max_retry)));
        assert(acts1[j - 1] == SayAction::Synthesize);
        assert forall|i: int| 0 <= i < j implies acts[i] == SayAction::Synthesize by {
            assert(acts[i] == acts1[i]);
        }
    }
}

/// With a budget of `n` attempts, a backend that fails the first `k - 1`
/// attempts and then decodes succeeds after exactly `k` attempts, each one
/// requested once, and the audio is enqueued once, at the end.
pub proof fn lemma_success_after_failures(max_retry: u64, k: nat)
    requires
        1 <= k <= max_retry,
    ensures
        ({
            let (s, acts) = say_run(
                SayState { max_retry, attempts: 0 },
                seq![SayEvent::QueryReady] + failed_attempts((k - 1) as nat) + seq![SayEvent::AttemptDecoded],
            );
            &&& s.attempts == k
            &&& acts.len() == k + 1
            &&& forall|i: int| 0 <= i < k ==> acts[i] == SayAction::Synthesize
            &&& acts[k as int] == SayAction::Enqueue
        }),
{
    lemma_failures(max_retry, (k - 1) as nat);
    let evs = seq![SayEvent::QueryReady] + failed_attempts((k - 1) as nat) + seq![SayEvent::AttemptDecoded];
    assert(evs.drop_last() =~= seq![SayEvent::QueryReady] + failed_attempts((k - 1) as nat));
}

/// With a budget of `n` attempts and a backend that always fails, the `say`
/// fails with the retry limit after exactly `n` attempts and never enqueues.
pub proof fn lemma_permanent_failure(max_retry: u64)
    ensures
        ({
            let (s, acts) = say_run(
                SayState { max_retry, attempts: 0 },
                seq![SayEvent::QueryReady] + failed_attempts(max_retry as nat),
            );
            &&& s.attempts == max_retry
            &&& acts.len() == max_retry + 1
            &&& forall|i: int| 0 <= i < max_retry ==> acts[i] == SayAction::Synthesize
            &&& acts[max_retry as int] == SayAction::FailRetryLimit
            &&& forall|i: int| 0 <= i < acts.len() ==> acts[i] != SayAction::Enqueue
        }),
{
    lemma_failures(max_retry, max_retry as nat);
}

} // verus!
