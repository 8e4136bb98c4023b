//! The read-aloud loop as a state machine.
//!
//! The loop speaks a list of sentences in order and highlights each word
//! while it is spoken. What it decides stands here: [`ReadAloud::step`]
//! takes what the driver observed and hands back the next thing to do.
//! The driver does it (synthesizes, plays, sleeps, notifies) and reads
//! the cancellation flag before every step.

use crate::time::Duration;
use crate::timing::{
    allocate,
    estimate_sentence_duration,
    estimated_nanos,
    left_over,
    nanos_of,
    planned,
    sleep_slice,
    step_nanos,
};
use vstd::prelude::*;

verus! {

/// Where the loop stands.
#[derive(Debug, Clone, Copy, PartialEq, Eq, Structural)]
pub enum Stage {
    /// Between sentences: the next one is about to begin.
    NextSentence,
    /// The sentence was announced; its audio is yet to be asked for.
    Announced,
    /// The sentence's audio was asked for.
    AwaitAudio,
    /// The sentence is being spoken.
    Speaking,
    /// The loop has ended and the audio output was told to stop; the end
    /// is yet to be reported.
    Stopping,
    /// The end was reported.
    Finished,
}

/// How the loop ended.
#[derive(Debug, Clone, Copy, PartialEq, Eq, Structural)]
pub enum Outcome {
    /// Every sentence was spoken.
    Completed,
    /// The loop was cancelled.
    Cancelled,
    /// Synthesis of a sentence failed.
    Failed,
}

/// The shape of a synthesis result.
#[derive(Debug, Clone, Copy, PartialEq, Eq, Structural)]
pub struct AudioShape {
    /// The number of samples over all channels.
    pub samples: usize,
    pub channels: u16,
    pub sample_rate: u32,
}

/// What the driver observed since the last step.
#[derive(Debug, Clone, Copy, PartialEq, Eq, Structural)]
pub enum Signal {
    /// Nothing to report: the last action was carried out.
    Continue,
    /// Synthesis gave audio of this shape, and the audio is queued.
    Audio(AudioShape),
    /// Synthesis failed.
    SynthesisFailed,
}

/// What the driver is to do next.
#[derive(Debug, Clone, Copy, PartialEq, Eq, Structural)]
pub enum Action {
    /// Tell that this sentence is now the current one, and persist that.
    AnnounceSentence { sentence: usize },
    /// Synthesize this sentence at the rate that holds now, queue the
    /// audio, and report its shape.
    Synthesize { sentence: usize },
    /// Highlight this word.
    HighlightWord { sentence: usize, word: usize },
    /// Sleep this long, never longer than one sleep step.
    Sleep { duration: Duration },
    /// Stop the audio output at once.
    StopAudio,
    /// Mark the loop finished and persist this position.
    Finish { outcome: Outcome, sentence: usize, word: usize },
}

/// The loop's state as mathematical values.
pub struct LoopView {
    /// The weight of every word of every sentence.
    pub weights: Seq<Seq<usize>>,
    /// The sentence that the loop began with.
    pub start_sentence: nat,
    /// The word that the first sentence is taken up at.
    pub start_word: nat,
    /// The sentence that is being spoken, or is next.
    pub sentence: nat,
    /// The next word to highlight.
    pub next_word: nat,
    /// The first word that the plan has a time for.
    pub plan_start: nat,
    /// The time of each word of the sentence from `plan_start` on.
    pub plan: Seq<nat>,
    /// The time to wait after the last word.
    pub leftover: nat,
    /// What is left of the sleep that is under way.
    pub sleep_left: nat,
    pub stage: Stage,
    pub outcome: Outcome,
    /// The sentence last announced.
    pub at_sentence: nat,
    /// The word last highlighted in it, zero where none was yet.
    pub at_word: nat,
}

/// What every loop state upholds.
pub open spec fn wf(v: LoopView) -> bool {
    &&& v.weights.len() <= usize::MAX
    &&& forall|i: int| 0 <= i < v.weights.len() ==> (#[trigger] v.weights[i]).len() <= usize::MAX
    &&& v.sentence <= v.weights.len()
    &&& v.at_sentence <= usize::MAX
    &&& v.at_word <= usize::MAX
    &&& v.leftover <= u64::MAX
    &&& v.sleep_left <= u64::MAX
    &&& forall|i: int| 0 <= i < v.plan.len() ==> #[trigger] v.plan[i] <= u64::MAX
    &&& (v.stage == Stage::Announced || v.stage == Stage::AwaitAudio || v.stage == Stage::Speaking)
        ==> v.sentence < v.weights.len() && v.at_sentence == v.sentence
    &&& v.stage == Stage::Speaking ==> v.plan_start <= v.next_word <= v.weights[v.sentence as int].len()
        && v.plan.len() + v.plan_start == v.weights[v.sentence as int].len()
}

/// The state at the start of a loop over sentences with these word
/// weights, taken up at `start_word` of `start_sentence`.
pub open spec fn initial(weights: Seq<Seq<usize>>, start_sentence: nat, start_word: nat) -> LoopView {
    LoopView {
        weights,
        start_sentence,
        start_word,
        sentence: if start_sentence < weights.len() {
            start_sentence
        } else {
            weights.len()
        },
        next_word: 0,
        plan_start: 0,
        plan: Seq::empty(),
        leftover: 0,
        sleep_left: 0,
        stage: Stage::NextSentence,
        outcome: Outcome::Completed,
        at_sentence: start_sentence,
        at_word: start_word,
    }
}

/// The word at which a sentence of `word_count` words is taken up: the
/// resume word in the sentence that the loop began with, held inside the
/// sentence; the first word in every other.
pub open spec fn first_word(v: LoopView, word_count: nat) -> nat {
    if word_count == 0 {
        0
    } else if v.sentence == v.start_sentence {
        if v.start_word < word_count {
            v.start_word
        } else {
            (word_count - 1) as nat
        }
    } else {
        0
    }
}

/// The state once audio of shape `shape` has arrived for the current
/// sentence: its estimated time is shared out among the words.
pub open spec fn with_audio(v: LoopView, shape: AudioShape) -> LoopView {
    let words = v.weights[v.sentence as int];
    let total = estimated_nanos(shape.samples as nat, shape.channels, shape.sample_rate, words.len())
        as nat;
    let start = first_word(v, words.len());
    LoopView {
        next_word: start,
        plan_start: start,
        plan: planned(words, start as int, total),
        leftover: left_over(words, start as int, total),
        sleep_left: 0,
        stage: Stage::Speaking,
        ..v
    }
}

/// The step between sentences: the end where no sentence is left, else
/// the announcement of the next one.
pub open spec fn begin_sentence(v: LoopView) -> (LoopView, Action) {
    if v.sentence >= v.weights.len() {
        (
            LoopView { stage: Stage::Finished, outcome: Outcome::Completed, ..v },
            Action::Finish {
                outcome: Outcome::Completed,
                sentence: v.at_sentence as usize,
                word: v.at_word as usize,
            },
        )
    } else {
        (
            LoopView { stage: Stage::Announced, at_sentence: v.sentence, at_word: 0, ..v },
            Action::AnnounceSentence { sentence: v.sentence as usize },
        )
    }
}

/// One slice of the sleep that is under way.
pub open spec fn sleep_on(v: LoopView) -> (LoopView, Action) {
    let slice = if v.sleep_left < step_nanos() {
        v.sleep_left
    } else {
        step_nanos()
    };
    (
        LoopView { sleep_left: (v.sleep_left - slice) as nat, ..v },
        Action::Sleep { duration: Duration { nanos: slice as u64 } },
    )
}

/// The step while a sentence is spoken: the rest of a sleep first, then
/// the next word, then the time left over after the last word, then the
/// next sentence.
pub open spec fn speak(v: LoopView) -> (LoopView, Action) {
    if v.sleep_left > 0 {
        sleep_on(v)
    } else if v.next_word < v.weights[v.sentence as int].len() {
        (
            LoopView {
                sleep_left: v.plan[v.next_word - v.plan_start],
                next_word: v.next_word + 1,
                at_word: v.next_word,
                ..v
            },
            Action::HighlightWord { sentence: v.sentence as usize, word: v.next_word as usize },
        )
    } else if v.leftover > 0 {
        sleep_on(LoopView { sleep_left: v.leftover, leftover: 0, ..v })
    } else {
        begin_sentence(
            LoopView { sentence: v.sentence + 1, stage: Stage::NextSentence, ..v },
        )
    }
}

/// The loop's transition: the state after one step and the action that
/// the step asks for, given whether cancellation was requested and what
/// the driver observed.
pub open spec fn next(v: LoopView, cancelled: bool, signal: Signal) -> (LoopView, Action) {
    if v.stage == Stage::Finished || v.stage == Stage::Stopping {
        (
            LoopView { stage: Stage::Finished, ..v },
            Action::Finish {
                outcome: v.outcome,
                sentence: v.at_sentence as usize,
                word: v.at_word as usize,
            },
        )
    } else if cancelled {
        (LoopView { stage: Stage::Stopping, outcome: Outcome::Cancelled, ..v }, Action::StopAudio)
    } else {
        match v.stage {
            Stage::Announced => (
                LoopView { stage: Stage::AwaitAudio, ..v },
                Action::Synthesize { sentence: v.sentence as usize },
            ),
            Stage::AwaitAudio => match signal {
                Signal::Continue => (v, Action::Synthesize { sentence: v.sentence as usize }),
                Signal::SynthesisFailed => (
                    LoopView { stage: Stage::Stopping, outcome: Outcome::Failed, ..v },
                    Action::StopAudio,
                ),
                Signal::Audio(shape) => speak(with_audio(v, shape)),
            },
            Stage::Speaking => speak(v),
            _ => begin_sentence(v),
        }
    }
}

/// The read-aloud loop.
#[derive(Debug)]
pub struct ReadAloud {
    weights: Vec<Vec<usize>>,
    start_sentence: usize,
    start_word: usize,
    sentence: usize,
    next_word: usize,
    plan_start: usize,
    plan: Vec<Duration>,
    leftover: Duration,
    sleep_left: Duration,
    stage: Stage,
    outcome: Outcome,
    at_sentence: usize,
    at_word: usize,
}

/// The word weights of a list of sentences, as mathematical values.
pub open spec fn weight_views(weights: Seq<Vec<usize>>) -> Seq<Seq<usize>> {
    weights.map_values(|w: Vec<usize>| w@)
}

impl View for ReadAloud {
    type V = LoopView;

    closed spec fn view(&self) -> LoopView {
        LoopView {
            weights: weight_views(self.weights@),
            start_sentence: self.start_sentence as nat,
            start_word: self.start_word as nat,
            sentence: self.sentence as nat,
            next_word: self.next_word as nat,
            plan_start: self.plan_start as nat,
            plan: nanos_of(self.plan@),
            leftover: self.leftover.nanos as nat,
            sleep_left: self.sleep_left.nanos as nat,
            stage: self.stage,
            outcome: self.outcome,
            at_sentence: self.at_sentence as nat,
            at_word: self.at_word as nat,
        }
    }
}

impl ReadAloud {
    /// A loop over sentences whose words have the given weights, taken
    /// up at word `start_word` of sentence `start_sentence`.
    pub fn new(weights: Vec<Vec<usize>>, start_sentence: usize, start_word: usize) -> (reader:
        ReadAloud)
        ensures
            reader@ == initial(weight_views(weights@), start_sentence as nat, start_word as nat),
            wf(reader@),
    {
        let sentence = if start_sentence < weights.len() {
            start_sentence
        } else {
            weights.len()
        };
        let reader = ReadAloud {
            weights,
            start_sentence,
            start_word,
            sentence,
            next_word: 0,
            plan_start: 0,
            plan: Vec::new(),
            leftover: Duration::zero(),
            sleep_left: Duration::zero(),
            stage: Stage::NextSentence,
            outcome: Outcome::Completed,
            at_sentence: start_sentence,
            at_word: start_word,
        };
        proof {
            assert(reader@.plan =~= Seq::<nat>::empty());
            assert forall|i: int| 0 <= i < reader@.weights.len() implies (
            #[trigger] reader@.weights[i]).len() <= usize::MAX by {
                assert(reader@.weights[i] == reader.weights@[i]@);
                assert(reader.weights@[i].len() <= usize::MAX);
            }
        }
        reader
    }

    /// Where the loop stands.
    pub fn stage(&self) -> (stage: Stage)
        ensures
            stage == self@.stage,
    {
        self.stage
    }

    /// Whether the end was reported.
    pub fn is_finished(&self) -> (done: bool)
        ensures
            done == (self@.stage == Stage::Finished),
    {
        match self.stage {
            Stage::Finished => true,
            _ => false,
        }
    }

    /// The sentence last announced and the word last highlighted in it.
    pub fn position(&self) -> (at: (usize, usize))
        ensures
            at.0 == self@.at_sentence,
            at.1 == self@.at_word,
    {
        (self.at_sentence, self.at_word)
    }

    /// Takes in the audio for the current sentence and plans its words.
    fn take_audio(&mut self, shape: AudioShape)
        requires
            wf(old(self)@),
            old(self)@.stage == Stage::AwaitAudio,
        ensures
            final(self)@ == with_audio(old(self)@, shape),
            wf(final(self)@),
    {
        let count = self.weights[self.sentence].len();
        let total = estimate_sentence_duration(shape.samples, shape.channels, shape.sample_rate, count);
        let start: usize = if count == 0 {
            0
        } else if self.sentence == self.start_sentence {
            if self.start_word < count {
                self.start_word
            } else {
                count - 1
            }
        } else {
            0
        };
        let plan = allocate(&self.weights[self.sentence], start, total);
        proof {
            crate::timing::lemma_allocation_adds_up(
                self.weights@[self.sentence as int]@,
                start as int,
                total.nanos as nat,
            );
        }
        self.plan = plan.durations;
        self.leftover = plan.leftover;
        self.plan_start = start;
        self.next_word = start;
        self.sleep_left = Duration::zero();
        self.stage = Stage::Speaking;
    }

    /// One slice of the sleep that is under way.
    fn sleep_step(&mut self) -> (action: Action)
        requires
            wf(old(self)@),
            old(self)@.sleep_left > 0,
        ensures
            (final(self)@, action) == sleep_on(old(self)@),
            wf(final(self)@) == wf(old(self)@),
    {
        let slice = sleep_slice(self.sleep_left);
        self.sleep_left = self.sleep_left.saturating_sub(slice);
        Action::Sleep { duration: slice }
    }

    /// The step between sentences.
    fn sentence_step(&mut self) -> (action: Action)
        requires
            wf(old(self)@),
        ensures
            (final(self)@, action) == begin_sentence(old(self)@),
            wf(final(self)@),
    {
        if self.sentence >= self.weights.len() {
            self.stage = Stage::Finished;
            self.outcome = Outcome::Completed;
            Action::Finish {
                outcome: Outcome::Completed,
                sentence: self.at_sentence,
                word: self.at_word,
            }
        } else {
            self.stage = Stage::Announced;
            self.at_sentence = self.sentence;
            self.at_word = 0;
            Action::AnnounceSentence { sentence: self.sentence }
        }
    }

    /// The step while a sentence is spoken.
    fn speak_step(&mut self) -> (action: Action)
        requires
            wf(old(self)@),
            old(self)@.stage == Stage::Speaking,
        ensures
            (final(self)@, action) == speak(old(self)@),
            wf(final(self)@),
    {
        if !self.sleep_left.is_zero() {
            self.sleep_step()
        } else if self.next_word < self.weights[self.sentence].len() {
            let word = self.next_word;
            self.sleep_left = self.plan[word - self.plan_start];
            self.next_word = word + 1;
            self.at_word = word;
            Action::HighlightWord { sentence: self.sentence, word }
        } else if !self.leftover.is_zero() {
            self.sleep_left = self.leftover;
            self.leftover = Duration::zero();
            self.sleep_step()
        } else {
            self.sentence = self.sentence + 1;
            self.stage = Stage::NextSentence;
            self.sentence_step()
        }
    }

    /// Takes one step: given whether cancellation was requested and what
    /// the driver observed since the last step, moves on and hands back
    /// what the driver is to do next.
    pub fn step(&mut self, cancelled: bool, signal: Signal) -> (action: Action)
        requires
            wf(old(self)@),
        ensures
            (final(self)@, action) == next(old(self)@, cancelled, signal),
            wf(final(self)@),
    {
        match self.stage {
            Stage::Finished | Stage::Stopping => {
                self.stage = Stage::Finished;
                return Action::Finish {
                    outcome: self.outcome,
                    sentence: self.at_sentence,
                    word: self.at_word,
                };
            },
            _ => {},
        }
        if cancelled {
            self.stage = Stage::Stopping;
            self.outcome = Outcome::Cancelled;
            return Action::StopAudio;
        }
        match self.stage {
            Stage::Announced => {
                self.stage = Stage::AwaitAudio;
                Action::Synthesize { sentence: self.sentence }
            },
            Stage::AwaitAudio => match signal {
                Signal::Continue => Action::Synthesize { sentence: self.sentence },
                Signal::SynthesisFailed => {
                    self.stage = Stage::Stopping;
                    self.outcome = Outcome::Failed;
                    Action::StopAudio
                },
                Signal::Audio(shape) => {
                    self.take_audio(shape);
                    self.speak_step()
                },
            },
            Stage::Speaking => self.speak_step(),
            _ => self.sentence_step(),
        }
    }
}

/// Cancelling ends the loop at once. Whatever the loop was doing, the
/// step that sees the request asks for nothing but to stop the audio: no
/// word is highlighted, no sentence announced or synthesized, no sleep
/// begun. The step after it reports the end as cancelled, with the
/// position as it was when the request was seen: the word last
/// highlighted, not a later one.
pub proof fn lemma_cancel_ends_the_loop(v: LoopView, signal: Signal, later: bool, after: Signal)
    requires
        wf(v),
        v.stage != Stage::Stopping,
        v.stage != Stage::Finished,
    ensures
        next(v, true, signal).1 == Action::StopAudio,
        next(v, true, signal).0 == (LoopView {
            stage: Stage::Stopping,
            outcome: Outcome::Cancelled,
            ..v
        }),
        next(next(v, true, signal).0, later, after).0.stage == Stage::Finished,
        next(next(v, true, signal).0, later, after).1 == (Action::Finish {
            outcome: Outcome::Cancelled,
            sentence: v.at_sentence as usize,
            word: v.at_word as usize,
        }),
{
}

/// The position is the sentence last announced and the word last
/// highlighted in it: a highlight moves it to that word, which is the
/// next one in order; an announcement moves it to the start of that
/// sentence; no other step moves it. No step that sees a cancellation
/// request highlights or announces anything.
pub proof fn lemma_position_follows_highlights(v: LoopView, cancelled: bool, signal: Signal)
    requires
        wf(v),
    ensures
        ({
            let (w, action) = next(v, cancelled, signal);
            match action {
                Action::HighlightWord { sentence, word } => {
                    &&& !cancelled
                    &&& sentence == w.sentence
                    &&& word < w.weights[w.sentence as int].len()
                    &&& w.at_sentence == sentence
                    &&& w.at_word == word
                    &&& w.next_word == word + 1
                },
                Action::AnnounceSentence { sentence } => {
                    &&& !cancelled
                    &&& sentence == w.sentence
                    &&& sentence < w.weights.len()
                    &&& w.at_sentence == sentence
                    &&& w.at_word == 0
                },
                Action::Finish { outcome, sentence, word } => {
                    &&& w.stage == Stage::Finished
                    &&& sentence == v.at_sentence
                    &&& word == v.at_word
                    &&& w.at_sentence == v.at_sentence
                    &&& w.at_word == v.at_word
                },
                _ => w.at_sentence == v.at_sentence && w.at_word == v.at_word,
            }
        }),
{
    if v.stage == Stage::AwaitAudio && !cancelled {
        match signal {
            Signal::Audio(shape) => {
                crate::timing::lemma_allocation_adds_up(
                    v.weights[v.sentence as int],
                    first_word(v, v.weights[v.sentence as int].len()) as int,
                    estimated_nanos(
                        shape.samples as nat,
                        shape.channels,
                        shape.sample_rate,
                        v.weights[v.sentence as int].len(),
                    ) as nat,
                );
            },
            _ => {},
        }
    }
}

/// No sleep is longer than one sleep step, and none is empty: a
/// cancellation request is seen within that time.
pub proof fn lemma_sleeps_are_short(v: LoopView, cancelled: bool, signal: Signal)
    requires
        wf(v),
    ensures
        next(v, cancelled, signal).1 matches Action::Sleep { duration } ==> 0 < duration.nanos
            <= step_nanos(),
{
    if v.stage == Stage::AwaitAudio && !cancelled {
        match signal {
            Signal::Audio(shape) => {
                let words = v.weights[v.sentence as int];
                let total = estimated_nanos(
                    shape.samples as nat,
                    shape.channels,
                    shape.sample_rate,
                    words.len(),
                ) as nat;
                lemma_plan_fits(words, first_word(v, words.len()) as int, total);
            },
            _ => {},
        }
    }
}

/// Every time of a plan, and what it leaves over, is at most the time
/// that was shared out.
pub proof fn lemma_plan_fits(weights: Seq<usize>, from: int, remaining: nat)
    requires
        0 <= from,
    ensures
        left_over(weights, from, remaining) <= remaining,
        forall|i: int|
            0 <= i < planned(weights, from, remaining).len() ==> #[trigger] planned(
                weights,
                from,
                remaining,
            )[i] <= remaining,
    decreases weights.len() - from,
{
    if from < weights.len() {
        let share = crate::timing::word_share(
            remaining,
            crate::timing::floored(weights[from]),
            crate::timing::weight_sum(weights, from),
        );
        lemma_plan_fits(weights, from + 1, (remaining - share) as nat);
        let rest = planned(weights, from + 1, (remaining - share) as nat);
        assert forall|i: int| 0 <= i < planned(weights, from, remaining).len() implies #[trigger] planned(
            weights,
            from,
            remaining,
        )[i] <= remaining by {
            if i > 0 {
                assert(planned(weights, from, remaining)[i] == rest[i - 1]);
            }
        }
    }
}

/// The end is final: a finished loop stays finished and reports the same
/// end again, whatever it is told.
pub proof fn lemma_finished_stays_finished(v: LoopView, cancelled: bool, signal: Signal)
    requires
        v.stage == Stage::Finished,
    ensures
        next(v, cancelled, signal).0 == v,
        next(v, cancelled, signal).1 == (Action::Finish {
            outcome: v.outcome,
            sentence: v.at_sentence as usize,
            word: v.at_word as usize,
        }),
{
}

/// A failed synthesis ends the loop: the audio is stopped and the step
/// after reports the end as failed, at the position of the sentence that
/// could not be spoken.
pub proof fn lemma_failed_synthesis_ends_the_loop(v: LoopView, later: bool, after: Signal)
    requires
        wf(v),
        v.stage == Stage::AwaitAudio,
    ensures
        next(v, false, Signal::SynthesisFailed).1 == Action::StopAudio,
        next(next(v, false, Signal::SynthesisFailed).0, later, after).0.stage == Stage::Finished,
        next(next(v, false, Signal::SynthesisFailed).0, later, after).1 == (Action::Finish {
            outcome: Outcome::Failed,
            sentence: v.at_sentence as usize,
            word: v.at_word as usize,
        }),
{
}

/// The time that the current sentence still has to take: the sleep under
/// way, the words not yet highlighted, and what is left over after them.
pub open spec fn pending(v: LoopView) -> nat {
    v.sleep_left + crate::timing::total_of(
        v.plan.subrange(v.next_word - v.plan_start, v.plan.len() as int),
    ) + v.leftover
}

/// A sentence takes the time that was estimated for it. When its audio
/// arrives, the time pending is the estimate; from then on a sleep takes
/// its length off the time pending, a highlight takes nothing off, and
/// the loop leaves the sentence only when nothing is pending.
pub proof fn lemma_sentence_takes_its_time(v: LoopView, shape: AudioShape)
    requires
        wf(v),
        v.stage == Stage::Speaking || v.stage == Stage::AwaitAudio,
    ensures
        v.stage == Stage::AwaitAudio ==> pending(with_audio(v, shape)) == estimated_nanos(
            shape.samples as nat,
            shape.channels,
            shape.sample_rate,
            v.weights[v.sentence as int].len(),
        ),
        v.stage == Stage::Speaking ==> match speak(v).1 {
            Action::Sleep { duration } => pending(speak(v).0) + duration.nanos == pending(v),
            Action::HighlightWord { .. } => pending(speak(v).0) == pending(v),
            _ => pending(v) == 0,
        },
{
    if v.stage == Stage::AwaitAudio {
        let words = v.weights[v.sentence as int];
        let total = estimated_nanos(
            shape.samples as nat,
            shape.channels,
            shape.sample_rate,
            words.len(),
        ) as nat;
        let start = first_word(v, words.len());
        crate::timing::lemma_allocation_adds_up(words, start as int, total);
        let plan = planned(words, start as int, total);
        assert(plan.subrange(0, plan.len() as int) =~= plan);
    } else {
        let rest = v.plan.subrange(v.next_word - v.plan_start, v.plan.len() as int);
        if v.sleep_left > 0 {
        } else if v.next_word < v.weights[v.sentence as int].len() {
            assert(rest.drop_first() =~= v.plan.subrange(
                v.next_word + 1 - v.plan_start,
                v.plan.len() as int,
            ));
            assert(rest[0] == v.plan[v.next_word - v.plan_start]);
        } else {
            assert(rest.len() == 0);
        }
    }
}

/// Every step keeps the loop's state well formed.
pub proof fn lemma_next_keeps_wf(v: LoopView, cancelled: bool, signal: Signal)
    requires
        wf(v),
    ensures
        wf(next(v, cancelled, signal).0),
{
    if v.stage == Stage::AwaitAudio && !cancelled {
        match signal {
            Signal::Audio(shape) => {
                let words = v.weights[v.sentence as int];
                let total = estimated_nanos(
                    shape.samples as nat,
                    shape.channels,
                    shape.sample_rate,
                    words.len(),
                ) as nat;
                let start = first_word(v, words.len());
                lemma_plan_fits(words, start as int, total);
                crate::timing::lemma_allocation_adds_up(words, start as int, total);
                assert(wf(with_audio(v, shape)));
            },
            _ => {},
        }
    }
}

/// The number of sleeps that a wait of `nanos` nanoseconds is cut into.
pub open spec fn slices(nanos: nat) -> nat {
    ((nanos + step_nanos() - 1) / (step_nanos() as int)) as nat
}

/// The number of sleeps that a list of waits is cut into.
pub open spec fn slices_of(times: Seq<nat>) -> nat
    decreases times.len(),
{
    if times.len() == 0 {
        0
    } else {
        slices(times[0]) + slices_of(times.drop_first())
    }
}

/// The most sleeps that any estimated time is cut into, short of those
/// that end a word early.
pub open spec fn most_slices() -> nat {
    ((u64::MAX as int) / (step_nanos() as int)) as nat
}

/// The most steps that a sentence of `words` words takes: its
/// announcement, its synthesis, a highlight for each word, and its
/// sleeps.
pub open spec fn sentence_steps(words: nat) -> nat {
    2 + words + most_slices() + words + 1
}

/// The most steps that the sentences from `from` on take.
pub open spec fn later_steps(weights: Seq<Seq<usize>>, from: int) -> nat
    decreases weights.len() - from,
{
    if from < 0 || from >= weights.len() {
        0
    } else {
        sentence_steps(weights[from].len()) + later_steps(weights, from + 1)
    }
}

/// A bound on the steps that are left until the end is reported.
pub open spec fn steps_left(v: LoopView) -> nat {
    match v.stage {
        Stage::Finished => 0,
        Stage::Stopping => 1,
        Stage::NextSentence => 2 + later_steps(v.weights, v.sentence as int),
        Stage::Announced => (1 + later_steps(v.weights, v.sentence as int)) as nat,
        Stage::AwaitAudio => later_steps(v.weights, v.sentence as int),
        Stage::Speaking => 2 + (v.weights[v.sentence as int].len() - v.next_word) as nat + slices(
            v.sleep_left,
        ) + slices_of(v.plan.subrange(v.next_word - v.plan_start, v.plan.len() as int)) + slices(
            v.leftover,
        ) + later_steps(v.weights, (v.sentence + 1) as int),
    }
}

/// A wait is cut into one sleep more than full steps fit in it, at most.
proof fn lemma_slices_bound(nanos: nat)
    ensures
        slices(nanos) <= (nanos as int) / (step_nanos() as int) + 1,
        nanos == 0 ==> slices(nanos) == 0,
        nanos > 0 ==> slices(nanos) >= 1,
{
    let s = step_nanos() as int;
    assert(s == 15_000_000);
    assert((nanos + s - 1) / s <= (nanos as int) / s + 1) by (nonlinear_arith)
        requires
            s == 15_000_000,
            nanos >= 0,
    ;
    assert(nanos == 0 ==> (nanos + s - 1) / s == 0) by (nonlinear_arith)
        requires
            s == 15_000_000,
    ;
    assert(nanos > 0 ==> (nanos + s - 1) / s >= 1) by (nonlinear_arith)
        requires
            s == 15_000_000,
            nanos >= 0,
    ;
}

/// One sleep shortens what is left of a wait by one sleep.
proof fn lemma_slice_taken(nanos: nat)
    requires
        nanos > 0,
    ensures
        slices((nanos - if nanos < step_nanos() { nanos } else { step_nanos() }) as nat) + 1
            == slices(nanos),
{
    let s = step_nanos() as int;
    assert(s == 15_000_000);
    if nanos < step_nanos() {
        assert((nanos + s - 1) / s == 1) by (nonlinear_arith)
            requires
                s == 15_000_000,
                0 < nanos < s,
        ;
        assert((0 + s - 1) / s == 0) by (nonlinear_arith)
            requires
                s == 15_000_000,
        ;
    } else {
        assert((nanos - s + s - 1) / s + 1 == (nanos + s - 1) / s) by (nonlinear_arith)
            requires
                s == 15_000_000,
                nanos >= s,
        ;
    }
}

/// A list of waits is cut into no more sleeps than full steps fit in
/// their sum, and one more for each wait.
proof fn lemma_slices_of_bound(times: Seq<nat>)
    ensures
        slices_of(times) <= (crate::timing::total_of(times) as int) / (step_nanos() as int)
            + times.len(),
    decreases times.len(),
{
    if times.len() > 0 {
        let s = step_nanos() as int;
        assert(s == 15_000_000);
        lemma_slices_bound(times[0]);
        lemma_slices_of_bound(times.drop_first());
        let a = times[0] as int;
        let b = crate::timing::total_of(times.drop_first()) as int;
        assert(a / s + b / s <= (a + b) / s) by (nonlinear_arith)
            requires
                s == 15_000_000,
                a >= 0,
                b >= 0,
        ;
    }
}

/// The loop comes to its end. Every step brings the bound on the steps
/// that are left down, whether or not cancellation is requested, as long
/// as each request for audio is answered with audio or with a failure. A
/// loop whose bound is zero has reported its end.
pub proof fn lemma_every_step_nears_the_end(v: LoopView, cancelled: bool, signal: Signal)
    requires
        wf(v),
        v.stage != Stage::Finished,
        !(v.stage == Stage::AwaitAudio && !cancelled && signal == Signal::Continue),
    ensures
        steps_left(next(v, cancelled, signal).0) < steps_left(v),
        steps_left(v) == 0 <==> v.stage == Stage::Finished,
{
    let s = step_nanos() as int;
    assert(s == 15_000_000);
    if v.stage == Stage::Stopping {
    } else if v.stage == Stage::NextSentence {
    } else if v.stage == Stage::Announced || v.stage == Stage::AwaitAudio {
        assert(later_steps(v.weights, v.sentence as int) >= 3);
        if !cancelled && v.stage == Stage::AwaitAudio {
            match signal {
                Signal::Audio(shape) => {
                    let words = v.weights[v.sentence as int];
                    let total = estimated_nanos(
                        shape.samples as nat,
                        shape.channels,
                        shape.sample_rate,
                        words.len(),
                    ) as nat;
                    let start = first_word(v, words.len());
                    let u = with_audio(v, shape);
                    lemma_plan_fits(words, start as int, total);
                    crate::timing::lemma_allocation_adds_up(words, start as int, total);
                    assert(wf(u));
                    assert(u.plan.subrange(0, u.plan.len() as int) =~= u.plan);
                    lemma_slices_of_bound(u.plan);
                    lemma_slices_bound(u.leftover);
                    let a = crate::timing::total_of(u.plan) as int;
                    let b = u.leftover as int;
                    assert(a / s + b / s <= (a + b) / s) by (nonlinear_arith)
                        requires
                            s == 15_000_000,
                            a >= 0,
                            b >= 0,
                    ;
                    assert((a + b) / s <= (u64::MAX as int) / s) by (nonlinear_arith)
                        requires
                            s == 15_000_000,
                            0 <= a + b <= u64::MAX,
                    ;
                    assert(slices(0) == 0) by {
                        lemma_slices_bound(0);
                    }
                    assert(steps_left(u) <= steps_left(v));
                    lemma_speaking_nears_the_end(u);
                },
                _ => {},
            }
        }
    } else {
        assert(steps_left(v) >= 2);
        if !cancelled {
            lemma_speaking_nears_the_end(v);
        }
    }
}

/// While a sentence is spoken, every step brings the bound down.
proof fn lemma_speaking_nears_the_end(v: LoopView)
    requires
        wf(v),
        v.stage == Stage::Speaking,
    ensures
        steps_left(speak(v).0) < steps_left(v),
{
    let rest = v.plan.subrange(v.next_word - v.plan_start, v.plan.len() as int);
    if v.sleep_left > 0 {
        lemma_slice_taken(v.sleep_left);
    } else if v.next_word < v.weights[v.sentence as int].len() {
        assert(slices(0) == 0) by {
            lemma_slices_bound(0);
        }
        assert(rest[0] == v.plan[v.next_word - v.plan_start]);
        assert(rest.drop_first() =~= v.plan.subrange(
            v.next_word + 1 - v.plan_start,
            v.plan.len() as int,
        ));
    } else if v.leftover > 0 {
        assert(slices(0) == 0) by {
            lemma_slices_bound(0);
        }
        lemma_slice_taken(v.leftover);
    } else {
        assert(rest.len() == 0);
    }
}

/// The loop only moves forward: no step changes the sentences or goes
/// back to an earlier sentence, and within a sentence no step goes back
/// to an earlier word.
pub proof fn lemma_the_loop_moves_forward(v: LoopView, cancelled: bool, signal: Signal)
    requires
        wf(v),
    ensures
        next(v, cancelled, signal).0.weights == v.weights,
        next(v, cancelled, signal).0.start_sentence == v.start_sentence,
        next(v, cancelled, signal).0.start_word == v.start_word,
        next(v, cancelled, signal).0.sentence >= v.sentence,
        v.stage == Stage::Speaking && next(v, cancelled, signal).0.sentence == v.sentence
            ==> next(v, cancelled, signal).0.next_word >= v.next_word,
{
}

} // verus!
