//! A reading session: the sentences of the chapter on screen, the place
//! reached in them, and whether they are being read aloud.
//!
//! A session is idle or read aloud. Starting moves it from idle to read
//! aloud and hands out the loop to drive; the loop ends as completed,
//! cancelled or failed; taking in its end makes the session idle again.

use crate::chars::same_text;
use crate::model::EbookId;
use crate::read_aloud::{initial, next, wf, Action, LoopView, ReadAloud, Signal, Stage};
use crate::speech::{EngineHandle, SharedEngine};
use crate::time::{Duration, NANOS_PER_MILLI};
use crate::timing::compute_word_weights;
use std::sync::Arc;
use vstd::prelude::*;

verus! {

/// The rate of normal speech, in thousandths.
pub const DEFAULT_TTS_RATE_MILLI: u32 = 1000;

/// The slowest rate a session can be set to, in thousandths.
pub const TTS_MIN_RATE_MILLI: u32 = 500;

/// The fastest rate a session can be set to, in thousandths.
pub const TTS_MAX_RATE_MILLI: u32 = 2500;

/// How often a stop waits for the loop to finish before it goes on
/// without it.
pub const STOP_WAIT_POLLS: u32 = 200;

/// How long a stop waits each time, in milliseconds.
pub const STOP_WAIT_POLL_MS: u64 = 20;

/// What a stop does next while it waits for the loop to finish.
#[derive(Debug, Clone, Copy, PartialEq, Eq, Structural)]
pub enum StopWait {
    /// Wait this long, then look again.
    Wait(Duration),
    /// Go on: the loop has finished, or it was waited for long enough.
    GoOn,
}

/// What a stop does next after `waits_done` waits, given whether the
/// loop has finished: it goes on once the loop has finished, and after
/// 200 waits whether it has or not; else it waits 20 ms more. So a stop
/// never waits more than 200 times, four seconds in all.
pub fn stop_wait_step(waits_done: u32, finished: bool) -> (step: StopWait)
    ensures
        step == if finished || waits_done >= STOP_WAIT_POLLS {
            StopWait::GoOn
        } else {
            StopWait::Wait(Duration { nanos: (STOP_WAIT_POLL_MS * NANOS_PER_MILLI) as u64 })
        },
{
    if finished || waits_done >= STOP_WAIT_POLLS {
        StopWait::GoOn
    } else {
        StopWait::Wait(Duration::from_millis(STOP_WAIT_POLL_MS))
    }
}

/// `rate_milli` held to the range of session rates; the default where it
/// is zero, which stands for no rate at all.
pub open spec fn clamped_rate(rate_milli: u32) -> u32 {
    if rate_milli == 0 {
        DEFAULT_TTS_RATE_MILLI
    } else if rate_milli < TTS_MIN_RATE_MILLI {
        TTS_MIN_RATE_MILLI
    } else if rate_milli > TTS_MAX_RATE_MILLI {
        TTS_MAX_RATE_MILLI
    } else {
        rate_milli
    }
}

/// `rate_milli` held to the range of session rates; the default where it
/// is zero.
pub fn clamp_rate(rate_milli: u32) -> (rate: u32)
    ensures
        rate == clamped_rate(rate_milli),
        TTS_MIN_RATE_MILLI <= rate <= TTS_MAX_RATE_MILLI,
{
    if rate_milli == 0 {
        DEFAULT_TTS_RATE_MILLI
    } else if rate_milli < TTS_MIN_RATE_MILLI {
        TTS_MIN_RATE_MILLI
    } else if rate_milli > TTS_MAX_RATE_MILLI {
        TTS_MAX_RATE_MILLI
    } else {
        rate_milli
    }
}

/// The rate to synthesize at when the shared rate reads `stored`: the
/// default where nothing was stored yet, else what was stored.
pub fn rate_for_synthesis(stored: u32) -> (rate: u32)
    ensures
        rate == if stored == 0 { DEFAULT_TTS_RATE_MILLI } else { stored },
        rate > 0,
{
    if stored == 0 {
        DEFAULT_TTS_RATE_MILLI
    } else {
        stored
    }
}

/// One sentence and the words it was split into.
#[derive(Debug)]
pub struct SentenceData {
    pub text: String,
    pub words: Vec<String>,
}

/// The text of each sentence.
pub open spec fn sentence_texts(sentences: Seq<SentenceData>) -> Seq<Seq<char>> {
    sentences.map_values(|s: SentenceData| s.text@)
}

/// The words of each sentence.
pub open spec fn sentence_words(sentences: Seq<SentenceData>) -> Seq<Seq<Seq<char>>> {
    sentences.map_values(|s: SentenceData| s.words@.map_values(|w: String| w@))
}

/// The number of words of each sentence.
pub open spec fn word_counts(sentences: Seq<SentenceData>) -> Seq<nat> {
    sentences.map_values(|s: SentenceData| s.words@.len())
}

/// The weight of each word of each sentence.
pub open spec fn sentence_weights(sentences: Seq<SentenceData>) -> Seq<Seq<usize>> {
    sentences.map_values(|s: SentenceData| crate::timing::word_weights(s.words@))
}

/// `index` held inside a list of `count` items; zero where the list is
/// empty.
pub open spec fn held_inside(index: nat, count: nat) -> nat {
    if count == 0 {
        0
    } else if index < count {
        index
    } else {
        (count - 1) as nat
    }
}

/// `index` held inside a list of `count` items; zero where the list is
/// empty.
pub fn hold_inside(index: usize, count: usize) -> (held: usize)
    ensures
        held == held_inside(index as nat, count as nat),
{
    if count == 0 {
        0
    } else if index < count {
        index
    } else {
        count - 1
    }
}

/// A place in a chapter: a sentence and a word in it.
#[derive(Debug, Clone, Copy, PartialEq, Eq, Structural)]
pub struct Position {
    pub sentence: usize,
    pub word: usize,
}

impl Position {
    /// The position that a stored row stands for: a negative number
    /// counts as zero, and one too large for this machine as the largest
    /// there is.
    pub fn from_row(sentence: i64, word: i64) -> (at: Position)
        ensures
            at.sentence == row_index(sentence),
            at.word == row_index(word),
    {
        Position { sentence: index_of_row(sentence), word: index_of_row(word) }
    }
}

/// The index that a stored number stands for.
pub open spec fn row_index(stored: i64) -> usize {
    if stored < 0 {
        0
    } else if stored > usize::MAX {
        usize::MAX
    } else {
        stored as usize
    }
}

/// The index that a stored number stands for.
pub fn index_of_row(stored: i64) -> (index: usize)
    ensures
        index == row_index(stored),
{
    if stored < 0 {
        0
    } else if stored as u64 > usize::MAX as u64 {
        usize::MAX
    } else {
        stored as usize
    }
}

/// What the reader shows as active: a sentence and a word in it, each
/// only where there is one.
#[derive(Debug, Clone, Copy, PartialEq, Eq, Structural)]
pub struct ReaderView {
    pub active_sentence: Option<usize>,
    pub active_word: Option<usize>,
}

/// What a change to the session asks of its surroundings.
#[derive(Debug, Clone, Copy, PartialEq, Eq, Structural)]
pub struct Update {
    /// What to show.
    pub view: ReaderView,
    /// The position to persist, if any.
    pub save: Option<Position>,
}

/// Why reading aloud did not start.
#[derive(Debug, Clone, Copy, PartialEq, Eq, Structural)]
pub enum StartError {
    /// The chapter has no sentences.
    NoText,
    /// The session is being read aloud already.
    AlreadyRunning,
    /// No speech engine is configured.
    NoEngine,
}

/// What stopping asks of the surroundings.
#[derive(Debug, Clone, Copy, PartialEq, Eq, Structural)]
pub struct StopUpdates {
    /// The update for the end of reading aloud, where it was under way.
    pub finalized: Option<Update>,
    /// The update for going back to the first word, where that was asked
    /// for.
    pub reset: Option<Update>,
}

/// A session's state as mathematical values.
pub struct SessionView {
    /// The text of each sentence of the chapter.
    pub texts: Seq<Seq<char>>,
    /// The words of each sentence of the chapter.
    pub words: Seq<Seq<Seq<char>>>,
    /// The number of words of each sentence of the chapter.
    pub word_counts: Seq<nat>,
    /// The weight of each word of each sentence.
    pub weights: Seq<Seq<usize>>,
    pub chapter_count: nat,
    pub current_chapter: nat,
    pub current_sentence: nat,
    pub current_word: nat,
    pub tts_rate: u32,
    /// Whether the session is being read aloud.
    pub running: bool,
    /// Whether a speech engine is configured.
    pub has_engine: bool,
}

/// What the reader shows for a session in this state.
pub open spec fn shown(v: SessionView) -> ReaderView {
    if v.word_counts.len() == 0 {
        ReaderView { active_sentence: None, active_word: None }
    } else {
        ReaderView {
            active_sentence: Some(v.current_sentence as usize),
            active_word: if v.word_counts[v.current_sentence as int] == 0 {
                None
            } else {
                Some(v.current_word as usize)
            },
        }
    }
}

/// The state with the cursor moved to word `word` of sentence
/// `sentence`, each held inside what there is.
pub open spec fn moved_to(v: SessionView, sentence: nat, word: nat) -> SessionView {
    if v.word_counts.len() == 0 {
        SessionView { current_sentence: 0, current_word: 0, ..v }
    } else {
        let s = held_inside(sentence, v.word_counts.len());
        SessionView { current_sentence: s, current_word: held_inside(word, v.word_counts[s as int]), ..v }
    }
}

/// The position to persist after a change: the cursor, where persisting
/// was asked for and there is text.
pub open spec fn saved(v: SessionView, persist: bool) -> Option<Position> {
    if persist && v.word_counts.len() > 0 {
        Some(Position { sentence: v.current_sentence as usize, word: v.current_word as usize })
    } else {
        None
    }
}

/// The sentence reached from `current` by `delta` steps, held inside a
/// chapter of `count` sentences.
pub open spec fn stepped(current: nat, delta: int, count: nat) -> nat {
    if current + delta < 0 {
        0
    } else {
        held_inside((current + delta) as nat, count)
    }
}

/// What a start does to a session in state `v`: the state after it, or
/// why it is refused.
pub open spec fn start_result(v: SessionView) -> Result<SessionView, StartError> {
    if v.word_counts.len() == 0 {
        Err(StartError::NoText)
    } else if v.running {
        Err(StartError::AlreadyRunning)
    } else if !v.has_engine {
        Err(StartError::NoEngine)
    } else {
        Ok(SessionView { running: true, ..v })
    }
}

/// What every session state upholds: the cursor stands on a sentence and
/// a word that exist, or at zero where there is none.
pub open spec fn session_wf(v: SessionView) -> bool {
    &&& v.word_counts.len() == v.weights.len()
    &&& v.word_counts.len() == v.texts.len()
    &&& v.word_counts.len() == v.words.len()
    &&& forall|i: int| 0 <= i < v.words.len() ==> (#[trigger] v.words[i]).len() == v.word_counts[i]
    &&& forall|i: int, j: int|
        0 <= i < v.words.len() && 0 <= j < v.words[i].len() ==> (#[trigger] v.weights[i][j])
            == crate::timing::word_weight(v.words[i][j]) as usize
    &&& forall|i: int| 0 <= i < v.weights.len() ==> (#[trigger] v.weights[i]).len() == v.word_counts[i]
    &&& v.current_sentence == held_inside(v.current_sentence, v.word_counts.len())
    &&& v.word_counts.len() > 0 ==> v.current_word == held_inside(
        v.current_word,
        v.word_counts[v.current_sentence as int],
    )
    &&& v.word_counts.len() == 0 ==> v.current_word == 0
}

/// A reading session.
pub struct ReaderSession {
    book_id: EbookId,
    chapter_count: usize,
    current_chapter: usize,
    sentences: Vec<SentenceData>,
    current_sentence: usize,
    current_word: usize,
    tts_rate: u32,
    tts_engine: Option<SharedEngine>,
    tts_voice: Option<String>,
    tts_running: bool,
}

impl View for ReaderSession {
    type V = SessionView;

    closed spec fn view(&self) -> SessionView {
        SessionView {
            texts: sentence_texts(self.sentences@),
            words: sentence_words(self.sentences@),
            word_counts: word_counts(self.sentences@),
            weights: sentence_weights(self.sentences@),
            chapter_count: self.chapter_count as nat,
            current_chapter: self.current_chapter as nat,
            current_sentence: self.current_sentence as nat,
            current_word: self.current_word as nat,
            tts_rate: self.tts_rate,
            running: self.tts_running,
            has_engine: self.tts_engine is Some,
        }
    }
}

impl ReaderSession {
    /// The book that is read.
    pub closed spec fn book(&self) -> Seq<char> {
        self.book_id@
    }

    /// The configured speech engine, where there is one.
    pub closed spec fn engine(&self) -> Option<SharedEngine> {
        self.tts_engine
    }

    /// A session on a book of `chapter_count` chapters, with no chapter
    /// loaded yet, at the default rate and not read aloud. The null
    /// engine counts as no engine.
    pub fn new(book_id: EbookId, chapter_count: usize, engine: EngineHandle) -> (session:
        ReaderSession)
        ensures
            session_wf(session@),
            session.book() == book_id@,
            session@.word_counts.len() == 0,
            session@.chapter_count == chapter_count,
            session@.current_chapter == 0,
            session@.tts_rate == DEFAULT_TTS_RATE_MILLI,
            !session@.running,
            session@.has_engine == (engine.engine_id@ != "null"@),
            session@.has_engine ==> session.engine() == Some(engine.engine),
            session.voice() == crate::model::opt_chars(engine.voice),
    {
        let usable = !same_text(engine.engine_id.as_str(), "null");
        let session = ReaderSession {
            book_id,
            chapter_count,
            current_chapter: 0,
            sentences: Vec::new(),
            current_sentence: 0,
            current_word: 0,
            tts_rate: DEFAULT_TTS_RATE_MILLI,
            tts_engine: if usable {
                Some(engine.engine)
            } else {
                None
            },
            tts_voice: engine.voice,
            tts_running: false,
        };
        proof {
            assert(session@.words =~= Seq::<Seq<Seq<char>>>::empty());
            assert(session@.texts =~= Seq::<Seq<char>>::empty());
            assert(session@.word_counts =~= Seq::<nat>::empty());
            assert(session@.weights =~= Seq::<Seq<usize>>::empty());
        }
        session
    }

    /// The book that is read.
    pub fn book_id(&self) -> (id: &EbookId)
        ensures
            id@ == self.book(),
    {
        &self.book_id
    }

    /// The configured speech engine, where there is one.
    pub fn tts_engine(&self) -> (engine: Option<SharedEngine>)
        ensures
            engine == self.engine(),
    {
        match &self.tts_engine {
            Some(e) => Some(Arc::clone(e)),
            None => None,
        }
    }

    /// The configured voice, where there is one.
    pub closed spec fn voice(&self) -> Option<Seq<char>> {
        crate::model::opt_chars(self.tts_voice)
    }

    /// The configured voice, where there is one.
    pub fn tts_voice(&self) -> (voice: Option<&str>)
        ensures
            crate::speech::opt_text(voice) == self.voice(),
    {
        match &self.tts_voice {
            Some(v) => Some(v.as_str()),
            None => None,
        }
    }

    /// The cursor: the current sentence and the current word in it.
    pub fn position(&self) -> (at: Position)
        ensures
            at.sentence == self@.current_sentence,
            at.word == self@.current_word,
    {
        Position { sentence: self.current_sentence, word: self.current_word }
    }

    /// Whether the session is being read aloud.
    pub fn is_running(&self) -> (running: bool)
        ensures
            running == self@.running,
    {
        self.tts_running
    }

    /// The session's rate, in thousandths.
    pub fn tts_rate(&self) -> (rate: u32)
        ensures
            rate == self@.tts_rate,
    {
        self.tts_rate
    }

    /// The text of sentence `index`, where there is such a sentence.
    pub fn sentence_text(&self, index: usize) -> (text: Option<&str>)
        ensures
            text is Some <==> index < self@.texts.len(),
            text is Some ==> text->Some_0@ == self@.texts[index as int],
    {
        if index < self.sentences.len() {
            Some(self.sentences[index].text.as_str())
        } else {
            None
        }
    }

    /// The number of words of the current sentence; zero where there is
    /// no sentence.
    fn current_word_count(&self) -> (count: usize)
        requires
            session_wf(self@),
        ensures
            self@.word_counts.len() == 0 ==> count == 0,
            self@.word_counts.len() > 0 ==> count == self@.word_counts[self@.current_sentence as int],
    {
        if self.sentences.len() == 0 {
            0
        } else {
            self.sentences[self.current_sentence].words.len()
        }
    }

    /// Sets the session's rate, held to 500..=2500 thousandths (zero
    /// stands for the default), and hands back the rate that was set.
    pub fn set_tts_rate(&mut self, rate_milli: u32) -> (rate: u32)
        ensures
            rate == clamped_rate(rate_milli),
            final(self)@ == (SessionView { tts_rate: rate, ..old(self)@ }),
            final(self).book() == old(self).book(),
            final(self).engine() == old(self).engine(),
            final(self).voice() == old(self).voice(),
    {
        let rate = clamp_rate(rate_milli);
        self.tts_rate = rate;
        rate
    }

    /// What the reader is to show now.
    pub fn update_reader_view(&self) -> (view: ReaderView)
        requires
            session_wf(self@),
        ensures
            view == shown(self@),
    {
        if self.sentences.len() == 0 {
            ReaderView { active_sentence: None, active_word: None }
        } else {
            let count = self.current_word_count();
            ReaderView {
                active_sentence: Some(self.current_sentence),
                active_word: if count == 0 {
                    None
                } else {
                    Some(self.current_word)
                },
            }
        }
    }

    /// Shows chapter `chapter_idx`, whose text was split into
    /// `sentences`, from its first word. A chapter that the book does
    /// not have changes nothing and is answered with `None`.
    pub fn change_chapter(
        &mut self,
        chapter_idx: usize,
        sentences: Vec<SentenceData>,
        persist: bool,
    ) -> (update: Option<Update>)
        requires
            session_wf(old(self)@),
        ensures
            session_wf(final(self)@),
            final(self).book() == old(self).book(),
            final(self).engine() == old(self).engine(),
            final(self).voice() == old(self).voice(),
            chapter_idx >= old(self)@.chapter_count ==> update is None && final(self)@ == old(self)@,
            chapter_idx < old(self)@.chapter_count ==> final(self)@ == (SessionView {
                texts: sentence_texts(sentences@),
                words: sentence_words(sentences@),
                word_counts: word_counts(sentences@),
                weights: sentence_weights(sentences@),
                current_chapter: chapter_idx as nat,
                current_sentence: 0,
                current_word: 0,
                ..old(self)@
            }) && update == Some(
                Update {
                    view: shown(final(self)@),
                    save: if persist {
                        Some(Position { sentence: 0, word: 0 })
                    } else {
                        None
                    },
                },
            ),
    {
        if chapter_idx >= self.chapter_count {
            return None;
        }
        self.current_chapter = chapter_idx;
        self.sentences = sentences;
        self.current_sentence = 0;
        self.current_word = 0;
        proof {
            lemma_weights_match_counts(self.sentences@);
        }
        let view = self.update_reader_view();
        Some(
            Update {
                view,
                save: if persist {
                    Some(Position { sentence: 0, word: 0 })
                } else {
                    None
                },
            },
        )
    }

    /// Moves the cursor to word `word_idx` of sentence `sentence_idx`,
    /// each held inside what there is. The position is to be persisted
    /// where `persist` asks for it and the chapter has text.
    pub fn set_sentence(&mut self, sentence_idx: usize, word_idx: usize, persist: bool) -> (update:
        Update)
        requires
            session_wf(old(self)@),
        ensures
            session_wf(final(self)@),
            final(self).book() == old(self).book(),
            final(self).engine() == old(self).engine(),
            final(self).voice() == old(self).voice(),
            final(self)@ == moved_to(old(self)@, sentence_idx as nat, word_idx as nat),
            update == (Update { view: shown(final(self)@), save: saved(final(self)@, persist) }),
    {
        if self.sentences.len() == 0 {
            self.current_sentence = 0;
            self.current_word = 0;
            return Update { view: self.update_reader_view(), save: None };
        }
        let sentence = hold_inside(sentence_idx, self.sentences.len());
        self.current_sentence = sentence;
        self.current_word = hold_inside(word_idx, self.sentences[sentence].words.len());
        let view = self.update_reader_view();
        Update {
            view,
            save: if persist {
                Some(Position { sentence: self.current_sentence, word: self.current_word })
            } else {
                None
            },
        }
    }

    /// Moves the cursor to word `word_idx` of the current sentence, held
    /// inside the sentence.
    pub fn set_active_word(&mut self, word_idx: usize, persist: bool) -> (update: Update)
        requires
            session_wf(old(self)@),
        ensures
            session_wf(final(self)@),
            final(self).book() == old(self).book(),
            final(self).engine() == old(self).engine(),
            final(self).voice() == old(self).voice(),
            final(self)@ == moved_to(
                old(self)@,
                old(self)@.current_sentence,
                word_idx as nat,
            ),
            update == (Update { view: shown(final(self)@), save: saved(final(self)@, persist) }),
    {
        let sentence = self.current_sentence;
        self.set_sentence(sentence, word_idx, persist)
    }

    /// Moves the cursor `delta` sentences on (back where `delta` is
    /// negative), to the first word, and not past either end of the
    /// chapter. Without text nothing changes and the answer is `None`.
    pub fn step_sentence(&mut self, delta: isize, persist: bool) -> (update: Option<Update>)
        requires
            session_wf(old(self)@),
        ensures
            session_wf(final(self)@),
            final(self).book() == old(self).book(),
            final(self).engine() == old(self).engine(),
            final(self).voice() == old(self).voice(),
            old(self)@.word_counts.len() == 0 ==> update is None && final(self)@ == old(self)@,
            old(self)@.word_counts.len() > 0 ==> final(self)@ == moved_to(
                old(self)@,
                stepped(old(self)@.current_sentence, delta as int, old(self)@.word_counts.len()),
                0,
            ) && update == Some(
                Update { view: shown(final(self)@), save: saved(final(self)@, persist) },
            ),
    {
        if self.sentences.len() == 0 {
            return None;
        }
        let wanted: i128 = (self.current_sentence as i128) + (delta as i128);
        let target: usize = if wanted < 0 {
            0
        } else if wanted >= self.sentences.len() as i128 {
            self.sentences.len() - 1
        } else {
            wanted as usize
        };
        Some(self.set_sentence(target, 0, persist))
    }

    /// Moves the cursor `delta_sentences` sentences on, as
    /// [`ReaderSession::step_sentence`] does.
    pub fn jump_sentences(&mut self, delta_sentences: isize, persist: bool) -> (update: Option<
        Update,
    >)
        requires
            session_wf(old(self)@),
        ensures
            session_wf(final(self)@),
            final(self).book() == old(self).book(),
            final(self).engine() == old(self).engine(),
            final(self).voice() == old(self).voice(),
            old(self)@.word_counts.len() == 0 ==> update is None && final(self)@ == old(self)@,
            old(self)@.word_counts.len() > 0 ==> final(self)@ == moved_to(
                old(self)@,
                stepped(
                    old(self)@.current_sentence,
                    delta_sentences as int,
                    old(self)@.word_counts.len(),
                ),
                0,
            ) && update == Some(
                Update { view: shown(final(self)@), save: saved(final(self)@, persist) },
            ),
    {
        self.step_sentence(delta_sentences, persist)
    }

    /// Starts reading aloud from the cursor. Refused, with nothing
    /// changed, where the chapter has no text, where the session is
    /// being read aloud already, and where no engine is configured, in
    /// this order. Else the session counts as read aloud from now on, and
    /// the loop to drive is handed back: it starts at the cursor.
    pub fn start_tts(&mut self) -> (started: Result<ReadAloud, StartError>)
        requires
            session_wf(old(self)@),
        ensures
            session_wf(final(self)@),
            final(self).book() == old(self).book(),
            final(self).engine() == old(self).engine(),
            final(self).voice() == old(self).voice(),
            match start_result(old(self)@) {
                Ok(after) => started is Ok && final(self)@ == after && wf(started->Ok_0@)
                    && started->Ok_0@ == initial(
                    old(self)@.weights,
                    old(self)@.current_sentence,
                    old(self)@.current_word,
                ),
                Err(why) => started == Err::<ReadAloud, StartError>(why) && final(self)@ == old(
                    self,
                )@,
            },
    {
        if self.sentences.len() == 0 {
            return Err(StartError::NoText);
        }
        if self.tts_running {
            return Err(StartError::AlreadyRunning);
        }
        if self.tts_engine.is_none() {
            return Err(StartError::NoEngine);
        }
        let mut weights: Vec<Vec<usize>> = Vec::new();
        let mut i: usize = 0;
        while i < self.sentences.len()
            invariant
                i <= self.sentences.len(),
                weights@.len() == i,
                forall|k: int|
                    0 <= k < i ==> (#[trigger] weights@[k])@ == crate::timing::word_weights(
                        self.sentences@[k].words@,
                    ),
            decreases self.sentences.len() - i,
        {
            let row = compute_word_weights(&self.sentences[i].words);
            proof {
                assert(row@ =~= crate::timing::word_weights(self.sentences@[i as int].words@));
            }
            weights.push(row);
            i = i + 1;
        }
        proof {
            assert(crate::read_aloud::weight_views(weights@) =~= sentence_weights(self.sentences@));
        }
        self.tts_running = true;
        Ok(ReadAloud::new(weights, self.current_sentence, self.current_word))
    }

    /// Ends reading aloud: the session no longer counts as read aloud,
    /// and the cursor is to be persisted.
    pub fn finalize_tts(&mut self) -> (update: Update)
        requires
            session_wf(old(self)@),
        ensures
            session_wf(final(self)@),
            final(self).book() == old(self).book(),
            final(self).engine() == old(self).engine(),
            final(self).voice() == old(self).voice(),
            final(self)@ == (SessionView { running: false, ..old(self)@ }),
            update == (Update {
                view: shown(final(self)@),
                save: Some(
                    Position {
                        sentence: final(self)@.current_sentence as usize,
                        word: final(self)@.current_word as usize,
                    },
                ),
            }),
    {
        self.tts_running = false;
        Update {
            view: self.update_reader_view(),
            save: Some(Position { sentence: self.current_sentence, word: self.current_word }),
        }
    }

    /// Takes in the end of the loop after a stop was requested: ends
    /// reading aloud where it was under way, and then goes back to the
    /// first word of the sentence where `reset_word` asks for it.
    pub fn stop_tts(&mut self, reset_word: bool) -> (updates: StopUpdates)
        requires
            session_wf(old(self)@),
        ensures
            session_wf(final(self)@),
            final(self).book() == old(self).book(),
            final(self).engine() == old(self).engine(),
            final(self).voice() == old(self).voice(),
            final(self)@ == if reset_word {
                moved_to(
                    SessionView { running: false, ..old(self)@ },
                    old(self)@.current_sentence,
                    0,
                )
            } else {
                SessionView { running: false, ..old(self)@ }
            },
            updates.finalized is Some <==> old(self)@.running,
            updates.finalized is Some ==> updates.finalized->Some_0 == (Update {
                view: shown(old(self)@),
                save: Some(
                    Position {
                        sentence: old(self)@.current_sentence as usize,
                        word: old(self)@.current_word as usize,
                    },
                ),
            }),
            updates.reset is Some <==> reset_word,
            updates.reset is Some ==> updates.reset->Some_0 == (Update {
                view: shown(final(self)@),
                save: saved(final(self)@, true),
            }),
    {
        let finalized = if self.tts_running {
            Some(self.finalize_tts())
        } else {
            None
        };
        let reset = if reset_word {
            Some(self.set_active_word(0, true))
        } else {
            None
        };
        StopUpdates { finalized, reset }
    }

    /// Takes in the end of the loop after a pause was requested: as
    /// [`ReaderSession::stop_tts`], with the cursor left where it is.
    pub fn pause_tts(&mut self) -> (updates: StopUpdates)
        requires
            session_wf(old(self)@),
        ensures
            session_wf(final(self)@),
            final(self).book() == old(self).book(),
            final(self).engine() == old(self).engine(),
            final(self).voice() == old(self).voice(),
            final(self)@ == (SessionView { running: false, ..old(self)@ }),
            updates.finalized is Some <==> old(self)@.running,
            updates.reset is None,
    {
        self.stop_tts(false)
    }
}

/// The weights of a chapter's sentences are those of its words, as many
/// as there are words.
pub proof fn lemma_weights_match_counts(sentences: Seq<SentenceData>)
    ensures
        word_counts(sentences).len() == sentence_weights(sentences).len(),
        word_counts(sentences).len() == sentence_words(sentences).len(),
        forall|i: int|
            0 <= i < sentences.len() ==> (#[trigger] sentence_weights(sentences)[i]).len()
                == word_counts(sentences)[i],
        forall|i: int|
            0 <= i < sentences.len() ==> (#[trigger] sentence_words(sentences)[i]).len()
                == word_counts(sentences)[i],
        forall|i: int, j: int|
            0 <= i < sentences.len() && 0 <= j < sentence_words(sentences)[i].len() ==> (
            #[trigger] sentence_weights(sentences)[i][j]) == crate::timing::word_weight(
                sentence_words(sentences)[i][j],
            ) as usize,
{
}

/// Reading aloud cannot be started twice: while a session is read aloud,
/// a start is refused as already running and changes nothing; once the
/// loop's end was taken in, a start is accepted again.
pub proof fn lemma_one_loop_at_a_time(v: SessionView)
    requires
        session_wf(v),
        v.word_counts.len() > 0,
        v.has_engine,
    ensures
        start_result(v) is Ok <==> !v.running,
        v.running ==> start_result(v) == Err::<SessionView, StartError>(StartError::AlreadyRunning),
        start_result(SessionView { running: false, ..v }) is Ok,
{
}

/// What an action of the loop makes of a session whose driver does as it
/// is told: an announcement moves the cursor to the start of that
/// sentence, a highlight moves it to that word of the current sentence,
/// and nothing else moves it.
pub open spec fn after_action(v: SessionView, action: Action) -> SessionView {
    match action {
        Action::AnnounceSentence { sentence } => moved_to(v, sentence as nat, 0),
        Action::HighlightWord { sentence, word } => moved_to(v, v.current_sentence, word as nat),
        _ => v,
    }
}

/// Whether the cursor of the session stands where the loop stands.
pub open spec fn in_step(v: SessionView, l: LoopView) -> bool {
    &&& l.weights == v.weights
    &&& l.at_sentence == v.current_sentence
    &&& l.at_word == v.current_word
}

/// The cursor follows the loop. A loop started on a session begins where
/// the cursor stands; and whenever the cursor stands where the loop
/// stands, it does so again after the loop's next step and the action it
/// asks for. So the position that is persisted when the loop ends, by
/// cancellation or otherwise, is the word last highlighted.
pub proof fn lemma_cursor_follows_the_loop(
    v: SessionView,
    l: LoopView,
    cancelled: bool,
    signal: Signal,
)
    requires
        session_wf(v),
        wf(l),
        in_step(v, l),
    ensures
        in_step(v, initial(v.weights, v.current_sentence, v.current_word)),
        in_step(after_action(v, next(l, cancelled, signal).1), next(l, cancelled, signal).0),
        session_wf(after_action(v, next(l, cancelled, signal).1)),
{
    crate::read_aloud::lemma_position_follows_highlights(l, cancelled, signal);
    let (after, action) = next(l, cancelled, signal);
    match action {
        Action::AnnounceSentence { sentence } => {
            assert(after.weights == l.weights);
        },
        Action::HighlightWord { sentence, word } => {
            assert(after.weights == l.weights);
            assert(l.stage == Stage::Speaking || l.stage == Stage::AwaitAudio);
            assert(v.weights[v.current_sentence as int].len() == v.word_counts[v.current_sentence as int]);
        },
        _ => {
            assert(after.weights == l.weights);
        },
    }
}

} // verus!
