//! The retry rule of the classification client.
//!
//! Sending a request and waiting between attempts is the caller's work. The
//! library decides: the caller reports what an attempt came to and is told
//! whether the batch is classified, whether to wait and try again, or whether
//! to give the batch up.

use vstd::prelude::*;
use crate::mapping::{entries_map, CategoryMapping};
use crate::parser::{cleaned, json_object_entries, parse, ParseError};

verus! {

/// How many attempts a batch gets unless told otherwise.
pub const DEFAULT_MAX_ATTEMPTS: u32 = 3;

/// How many seconds pass between two attempts unless told otherwise.
pub const DEFAULT_RETRY_DELAY_SECS: u64 = 2;

/// How often a batch is tried and how long the pause between two tries is.
#[derive(Debug, Clone, Copy, PartialEq, Eq)]
pub struct RetryPolicy {
    /// The largest number of attempts for one batch.
    pub max_attempts: u32,
    /// The pause between two attempts, in seconds.
    pub delay_secs: u64,
}

/// What one request to the endpoint came to.
#[derive(Debug, Clone, PartialEq, Eq)]
pub enum AttemptOutcome {
    /// The endpoint could not be reached.
    TransportError,
    /// The endpoint answered with a status other than success.
    ErrorStatus,
    /// The body of the answer is not the expected envelope.
    MalformedEnvelope,
    /// The envelope was read; this is the model's text inside it.
    Reply(String),
}

/// Why an attempt failed.
#[derive(Debug, Clone, PartialEq, Eq)]
pub enum AttemptFailure {
    /// The endpoint could not be reached.
    Transport,
    /// The endpoint answered with a status other than success.
    Status,
    /// The body of the answer is not the expected envelope.
    Envelope,
    /// The model's text could not be read as a mapping.
    Payload(ParseError),
}

/// What the caller does after an attempt.
#[derive(Debug, Clone)]
pub enum Step {
    /// The attempt failed and another one is owed after the pause.
    Retry { failure: AttemptFailure, delay_secs: u64 },
    /// The attempt yielded the mapping of the batch; no further attempt.
    Done { mapping: CategoryMapping },
    /// The last attempt failed too; the batch is skipped.
    GiveUp { failure: AttemptFailure },
}

/// The classification of one batch in progress.
#[derive(Debug, Clone, Copy, PartialEq, Eq)]
pub struct Classification {
    /// The rule that governs the attempts.
    pub policy: RetryPolicy,
    /// How many attempts have been reported so far.
    pub attempts_made: u32,
    /// Whether the classification has ended, with a mapping or without.
    pub finished: bool,
}

/// The mapping that an attempt with the outcome `outcome` yields, if any:
/// that of the reply's cleaned text, where the JSON reader accepts it.
pub open spec fn yield_of(outcome: AttemptOutcome) -> Option<Map<Seq<char>, Seq<char>>> {
    match outcome {
        AttemptOutcome::Reply(text) => match json_object_entries(cleaned(text@)) {
            Some(entries) => Some(entries_map(entries)),
            None => None,
        },
        _ => None,
    }
}

/// Whether `failure` is the reason that fits the failed outcome `outcome`.
pub open spec fn is_failure_of(failure: AttemptFailure, outcome: AttemptOutcome) -> bool {
    match outcome {
        AttemptOutcome::TransportError => failure == AttemptFailure::Transport,
        AttemptOutcome::ErrorStatus => failure == AttemptFailure::Status,
        AttemptOutcome::MalformedEnvelope => failure == AttemptFailure::Envelope,
        AttemptOutcome::Reply(text) => failure matches AttemptFailure::Payload(
            ParseError::InvalidJson { raw },
        ) && raw@ == text@,
    }
}

/// The state after one more attempt has been reported: the classification
/// has ended if the attempt succeeded or was the last one allowed.
pub open spec fn after_attempt(state: Classification, succeeded: bool) -> Classification {
    Classification {
        policy: state.policy,
        attempts_made: (state.attempts_made + 1) as u32,
        finished: succeeded || state.attempts_made + 1 >= state.policy.max_attempts,
    }
}

/// The state in which a run over the attempts `yields` ends, and the mapping
/// it delivers. An attempt is made while one is due; the first attempt that
/// yields a mapping ends the run.
pub open spec fn run(state: Classification, yields: Seq<Option<Map<Seq<char>, Seq<char>>>>) -> (
    Classification,
    Option<Map<Seq<char>, Seq<char>>>,
)
    decreases yields.len(),
{
    if yields.len() == 0 || !state.attempt_due() {
        (state, None)
    } else {
        match yields[0] {
            Some(mapping) => (after_attempt(state, true), Some(mapping)),
            None => run(after_attempt(state, false), yields.drop_first()),
        }
    }
}

impl RetryPolicy {
    /// The rule with three attempts and two seconds between them.
    pub fn standard() -> (policy: RetryPolicy)
        ensures
            policy.max_attempts == DEFAULT_MAX_ATTEMPTS,
            policy.delay_secs == DEFAULT_RETRY_DELAY_SECS,
    {
        RetryPolicy { max_attempts: DEFAULT_MAX_ATTEMPTS, delay_secs: DEFAULT_RETRY_DELAY_SECS }
    }
}

impl Default for RetryPolicy {
    fn default() -> (policy: RetryPolicy)
        ensures
            policy.max_attempts == DEFAULT_MAX_ATTEMPTS,
            policy.delay_secs == DEFAULT_RETRY_DELAY_SECS,
    {
        RetryPolicy::standard()
    }
}

impl Classification {
    /// Whether another attempt is to be made.
    pub open spec fn attempt_due(self) -> bool {
        !self.finished && self.attempts_made < self.policy.max_attempts
    }

    /// The classification of a batch before its first attempt. It has ended
    /// at once where the rule allows no attempt.
    pub fn begin(policy: RetryPolicy) -> (state: Classification)
        ensures
            state.policy == policy,
            state.attempts_made == 0,
            state.finished == (policy.max_attempts == 0),
    {
        Classification { policy, attempts_made: 0, finished: policy.max_attempts == 0 }
    }

    /// Whether another attempt is to be made.
    pub fn is_attempt_due(&self) -> (due: bool)
        ensures
            due == self.attempt_due(),
    {
        !self.finished && self.attempts_made < self.policy.max_attempts
    }

    /// Takes the result of an attempt and says what follows. A mapping ends
    /// the classification at once. A failure is followed by a pause and a
    /// further attempt, unless it was the last attempt allowed: then the
    /// batch is given up.
    pub fn on_attempt(&mut self, result: Result<CategoryMapping, AttemptFailure>) -> (step: Step)
        requires
            old(self).attempt_due(),
        ensures
            *final(self) == after_attempt(*old(self), result is Ok),
            match result {
                Ok(found) => step matches Step::Done { mapping } && mapping == found,
                Err(reason) => if old(self).attempts_made + 1 < old(self).policy.max_attempts {
                    step matches Step::Retry { failure, delay_secs } && failure == reason
                        && delay_secs == old(self).policy.delay_secs
                } else {
                    step matches Step::GiveUp { failure } && failure == reason
                },
            },
    {
        self.attempts_made = self.attempts_made + 1;
        match result {
            Ok(mapping) => {
                self.finished = true;
                Step::Done { mapping }
            },
            Err(failure) => {
                if self.attempts_made < self.policy.max_attempts {
                    Step::Retry { failure, delay_secs: self.policy.delay_secs }
                } else {
                    self.finished = true;
                    Step::GiveUp { failure }
                }
            },
        }
    }

    /// Takes what a request came to and says what follows: the reply of a
    /// request that was answered is parsed, and the attempt counts as failed
    /// where the request failed or the reply cannot be read.
    pub fn on_outcome(&mut self, outcome: AttemptOutcome) -> (step: Step)
        requires
            old(self).attempt_due(),
        ensures
            *final(self) == after_attempt(*old(self), yield_of(outcome) is Some),
            match yield_of(outcome) {
                Some(found) => step matches Step::Done { mapping } && mapping@ == found,
                None => if old(self).attempts_made + 1 < old(self).policy.max_attempts {
                    step matches Step::Retry { failure, delay_secs } && is_failure_of(
                        failure,
                        outcome,
                    ) && delay_secs == old(self).policy.delay_secs
                } else {
                    step matches Step::GiveUp { failure } && is_failure_of(failure, outcome)
                },
            },
    {
        let result = attempt_result(outcome);
        self.on_attempt(result)
    }
}

/// What an attempt with the outcome `outcome` yields: the mapping read from
/// the reply, or the reason why the attempt counts as failed.
pub fn attempt_result(outcome: AttemptOutcome) -> (result: Result<CategoryMapping, AttemptFailure>)
    ensures
        match result {
            Ok(mapping) => yield_of(outcome) == Some(mapping@),
            Err(failure) => yield_of(outcome) is None && is_failure_of(failure, outcome),
        },
{
    match outcome {
        AttemptOutcome::TransportError => Err(AttemptFailure::Transport),
        AttemptOutcome::ErrorStatus => Err(AttemptFailure::Status),
        AttemptOutcome::MalformedEnvelope => Err(AttemptFailure::Envelope),
        AttemptOutcome::Reply(text) => match parse(text.as_str()) {
            Ok(mapping) => Ok(mapping),
            Err(error) => Err(AttemptFailure::Payload(error)),
        },
    }
}

/// Where the first attempts fail and a later one, still within the number
/// allowed, yields a mapping, the run delivers that mapping, has made
/// exactly the attempts up to that one, and makes no further attempt.
pub proof fn lemma_first_success_is_delivered(
    state: Classification,
    yields: Seq<Option<Map<Seq<char>, Seq<char>>>>,
    i: int,
)
    requires
        !state.finished,
        0 <= i < yields.len(),
        state.attempts_made + i < state.policy.max_attempts,
        yields[i] is Some,
        forall|j: int| 0 <= j < i ==> yields[j] is None,
    ensures
        run(state, yields).1 == yields[i],
        run(state, yields).0.attempts_made == state.attempts_made + i + 1,
        !run(state, yields).0.attempt_due(),
    decreases i,
{
    if i > 0 {
        let next = after_attempt(state, false);
        let rest = yields.drop_first();
        assert(rest[i - 1] == yields[i]);
        assert forall|j: int| 0 <= j < i - 1 implies rest[j] is None by {
            assert(rest[j] == yields[j + 1]);
        }
        lemma_first_success_is_delivered(next, rest, i - 1);
    }
}

/// Where every attempt allowed fails, the run delivers nothing, has made
/// exactly the attempts allowed, and makes no further attempt.
pub proof fn lemma_exhaustion_delivers_nothing(
    state: Classification,
    yields: Seq<Option<Map<Seq<char>, Seq<char>>>>,
)
    requires
        !state.finished,
        state.attempts_made <= state.policy.max_attempts,
        yields.len() >= state.policy.max_attempts - state.attempts_made,
        forall|j: int|
            0 <= j < state.policy.max_attempts - state.attempts_made ==> yields[j] is None,
    ensures
        run(state, yields).1 is None,
        run(state, yields).0.attempts_made == state.policy.max_attempts,
        !run(state, yields).0.attempt_due(),
    decreases state.policy.max_attempts - state.attempts_made,
{
    if state.attempts_made < state.policy.max_attempts {
        let next = after_attempt(state, false);
        let rest = yields.drop_first();
        assert(yields[0] is None);
        if next.attempts_made < next.policy.max_attempts {
            assert forall|j: int|
                0 <= j < next.policy.max_attempts - next.attempts_made implies rest[j] is None by {
                assert(rest[j] == yields[j + 1]);
            }
            lemma_exhaustion_delivers_nothing(next, rest);
        }
    }
}

} // verus!
