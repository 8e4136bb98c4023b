//! Playback of pre-recorded chapters: the commands, the state they act
//! on, and the single handler that serves them one at a time.

use crate::model::{AudioChapter, AudioChapterView};
use crate::time::Duration;
use vstd::prelude::*;

verus! {

/// How many commands may wait to be served before a sender has to wait.
pub const PLAYBACK_CHANNEL_BUFFER: usize = 8;

/// A failure reported by the audio device.
#[derive(Debug)]
pub struct BackendError {
    pub message: String,
}

impl View for BackendError {
    type V = Seq<char>;

    open spec fn view(&self) -> Seq<char> {
        self.message@
    }
}

/// The audio device that playback drives. Nothing is assumed of what an
/// implementation returns.
pub trait AudioBackend {
    fn load(&self, chapter: &AudioChapter) -> Result<(), BackendError>;

    fn play(&self) -> Result<(), BackendError>;

    fn pause(&self) -> Result<(), BackendError>;

    fn stop(&self) -> Result<(), BackendError>;

    fn seek(&self, position: Duration) -> Result<(), BackendError>;

    fn position(&self) -> Result<Duration, BackendError>;
}

/// A device that plays nothing: every call succeeds and the position
/// stays at zero.
#[derive(Debug, Clone, Copy)]
pub struct NullBackend;

impl AudioBackend for NullBackend {
    fn load(&self, chapter: &AudioChapter) -> (done: Result<(), BackendError>)
        ensures
            done is Ok,
    {
        Ok(())
    }

    fn play(&self) -> (done: Result<(), BackendError>)
        ensures
            done is Ok,
    {
        Ok(())
    }

    fn pause(&self) -> (done: Result<(), BackendError>)
        ensures
            done is Ok,
    {
        Ok(())
    }

    fn stop(&self) -> (done: Result<(), BackendError>)
        ensures
            done is Ok,
    {
        Ok(())
    }

    fn seek(&self, position: Duration) -> (done: Result<(), BackendError>)
        ensures
            done is Ok,
    {
        Ok(())
    }

    fn position(&self) -> (at: Result<Duration, BackendError>)
        ensures
            at is Ok,
            at->Ok_0.nanos == 0,
    {
        Ok(Duration::zero())
    }
}

/// What playback is doing, as mathematical values.
pub struct StateView {
    pub current_chapter: Option<AudioChapterView>,
    pub is_playing: bool,
    pub position: Duration,
}

/// The state before anything was loaded, and after a stop.
pub open spec fn idle_state() -> StateView {
    StateView { current_chapter: None, is_playing: false, position: Duration { nanos: 0 } }
}

/// The view of an optional chapter.
pub open spec fn opt_chapter_view(chapter: Option<AudioChapter>) -> Option<AudioChapterView> {
    match chapter {
        Some(c) => Some(c@),
        None => None,
    }
}

/// A copy of an optional chapter.
pub fn clone_opt_chapter(chapter: &Option<AudioChapter>) -> (copy: Option<AudioChapter>)
    ensures
        opt_chapter_view(copy) == opt_chapter_view(*chapter),
{
    match chapter {
        Some(c) => Some(c.clone()),
        None => None,
    }
}

/// A point-in-time copy of the playback state.
#[derive(Debug)]
pub struct Snapshot {
    pub current_chapter: Option<AudioChapter>,
    pub is_playing: bool,
    pub position: Duration,
}

impl View for Snapshot {
    type V = StateView;

    open spec fn view(&self) -> StateView {
        StateView {
            current_chapter: opt_chapter_view(self.current_chapter),
            is_playing: self.is_playing,
            position: self.position,
        }
    }
}

impl Clone for Snapshot {
    fn clone(&self) -> (copy: Snapshot)
        ensures
            copy@ == self@,
    {
        Snapshot {
            current_chapter: clone_opt_chapter(&self.current_chapter),
            is_playing: self.is_playing,
            position: self.position,
        }
    }
}

/// The playback state. Only the command handler writes it; everyone else
/// reads copies.
#[derive(Debug)]
pub struct PlaybackState {
    current_chapter: Option<AudioChapter>,
    is_playing: bool,
    position: Duration,
}

impl View for PlaybackState {
    type V = StateView;

    closed spec fn view(&self) -> StateView {
        StateView {
            current_chapter: opt_chapter_view(self.current_chapter),
            is_playing: self.is_playing,
            position: self.position,
        }
    }
}

/// A request to the playback handler.
#[derive(Debug)]
pub enum PlaybackCommand {
    LoadAndPlay(AudioChapter),
    Pause,
    Resume,
    Stop,
    Seek(Duration),
}

/// A [`PlaybackCommand`] as mathematical values.
pub enum CommandView {
    LoadAndPlay(AudioChapterView),
    Pause,
    Resume,
    Stop,
    Seek(Duration),
}

impl View for PlaybackCommand {
    type V = CommandView;

    open spec fn view(&self) -> CommandView {
        match self {
            PlaybackCommand::LoadAndPlay(c) => CommandView::LoadAndPlay(c@),
            PlaybackCommand::Pause => CommandView::Pause,
            PlaybackCommand::Resume => CommandView::Resume,
            PlaybackCommand::Stop => CommandView::Stop,
            PlaybackCommand::Seek(at) => CommandView::Seek(*at),
        }
    }
}

/// What a command led to, told to whoever listens.
#[derive(Debug)]
pub enum PlaybackEvent {
    ChapterStarted(AudioChapter),
    ChapterComplete(AudioChapter),
    ChapterFailed { chapter: AudioChapter, error: BackendError },
}

/// A [`PlaybackEvent`] as mathematical values.
pub enum EventView {
    ChapterStarted(AudioChapterView),
    ChapterComplete(AudioChapterView),
    ChapterFailed { chapter: AudioChapterView, error: Seq<char> },
}

impl View for PlaybackEvent {
    type V = EventView;

    open spec fn view(&self) -> EventView {
        match self {
            PlaybackEvent::ChapterStarted(c) => EventView::ChapterStarted(c@),
            PlaybackEvent::ChapterComplete(c) => EventView::ChapterComplete(c@),
            PlaybackEvent::ChapterFailed { chapter, error } => EventView::ChapterFailed {
                chapter: chapter@,
                error: error@,
            },
        }
    }
}

/// One call to the audio device.
#[derive(Debug)]
pub enum BackendCall {
    Load(AudioChapter),
    Play,
    Pause,
    Stop,
    Seek(Duration),
}

/// A [`BackendCall`] as mathematical values.
pub enum CallView {
    Load(AudioChapterView),
    Play,
    Pause,
    Stop,
    Seek(Duration),
}

impl View for BackendCall {
    type V = CallView;

    open spec fn view(&self) -> CallView {
        match self {
            BackendCall::Load(c) => CallView::Load(c@),
            BackendCall::Play => CallView::Play,
            BackendCall::Pause => CallView::Pause,
            BackendCall::Stop => CallView::Stop,
            BackendCall::Seek(at) => CallView::Seek(*at),
        }
    }
}

/// The views of a list of device calls.
pub open spec fn call_views(calls: Seq<BackendCall>) -> Seq<CallView> {
    calls.map_values(|c: BackendCall| c@)
}

/// The device calls that a command asks for, in the order they are made.
pub open spec fn planned_calls(command: CommandView) -> Seq<CallView> {
    match command {
        CommandView::LoadAndPlay(c) => seq![CallView::Load(c), CallView::Play],
        CommandView::Pause => seq![CallView::Pause],
        CommandView::Resume => seq![CallView::Play],
        CommandView::Stop => seq![CallView::Stop],
        CommandView::Seek(at) => seq![CallView::Seek(at)],
    }
}

/// The chapter that a command's outcome is reported for: the one it
/// loads, else the one that is current.
pub open spec fn subject(state: StateView, command: CommandView) -> Option<AudioChapterView> {
    match command {
        CommandView::LoadAndPlay(c) => Some(c),
        _ => state.current_chapter,
    }
}

/// The state after `command`, whose device calls ended with `failure`
/// (`None` where all of them succeeded). A failed command changes nothing.
pub open spec fn after_command(
    state: StateView,
    command: CommandView,
    failure: Option<Seq<char>>,
) -> StateView {
    if failure is Some {
        state
    } else {
        match command {
            CommandView::LoadAndPlay(c) => StateView {
                current_chapter: Some(c),
                is_playing: true,
                position: state.position,
            },
            CommandView::Pause => StateView { is_playing: false, ..state },
            CommandView::Resume => StateView { is_playing: true, ..state },
            CommandView::Stop => idle_state(),
            CommandView::Seek(at) => StateView { position: at, ..state },
        }
    }
}

/// The event that `command` gives rise to: a start after a successful
/// load, a completion after a successful stop of a chapter, a failure
/// where the device failed and there is a chapter to report it for.
pub open spec fn event_after(
    state: StateView,
    command: CommandView,
    failure: Option<Seq<char>>,
) -> Option<EventView> {
    match failure {
        Some(error) => match subject(state, command) {
            Some(chapter) => Some(EventView::ChapterFailed { chapter, error }),
            None => None,
        },
        None => match command {
            CommandView::LoadAndPlay(c) => Some(EventView::ChapterStarted(c)),
            CommandView::Stop => match state.current_chapter {
                Some(c) => Some(EventView::ChapterComplete(c)),
                None => None,
            },
            _ => None,
        },
    }
}

/// What the handler hands back for `command`: the event, or the device's
/// error where it failed with no chapter to report it for.
pub open spec fn reply_after(
    state: StateView,
    command: CommandView,
    failure: Option<Seq<char>>,
) -> Result<Option<EventView>, Seq<char>> {
    match failure {
        Some(error) => match subject(state, command) {
            Some(chapter) => Ok(Some(EventView::ChapterFailed { chapter, error })),
            None => Err(error),
        },
        None => Ok(event_after(state, command, failure)),
    }
}

/// The state after the device was asked for its position: the reported
/// position where it answered, the state as it was where it did not.
pub open spec fn after_position(state: StateView, reported: Option<Duration>) -> StateView {
    match reported {
        Some(at) => StateView { position: at, ..state },
        None => state,
    }
}

/// The state after one whole command: its effect, then the position that
/// the device reported.
pub open spec fn after_step(
    state: StateView,
    command: CommandView,
    failure: Option<Seq<char>>,
    reported: Option<Duration>,
) -> StateView {
    after_position(after_command(state, command, failure), reported)
}

/// The view of a handler's reply.
pub open spec fn reply_view(reply: Result<Option<PlaybackEvent>, BackendError>) -> Result<
    Option<EventView>,
    Seq<char>,
> {
    match reply {
        Ok(Some(event)) => Ok(Some(event@)),
        Ok(None) => Ok(None),
        Err(error) => Err(error@),
    }
}

/// The view of what a run of device calls ended with.
pub open spec fn failure_view(outcome: Result<(), BackendError>) -> Option<Seq<char>> {
    match outcome {
        Ok(_) => None,
        Err(error) => Some(error@),
    }
}

/// The view of a reported position.
pub open spec fn reported_view(reported: Result<Duration, BackendError>) -> Option<Duration> {
    match reported {
        Ok(at) => Some(at),
        Err(_) => None,
    }
}

impl PlaybackState {
    /// The idle state: no chapter, not playing, position zero.
    pub fn new() -> (state: PlaybackState)
        ensures
            state@ == idle_state(),
    {
        PlaybackState { current_chapter: None, is_playing: false, position: Duration::zero() }
    }

    /// A copy of the state as it is now.
    pub fn snapshot(&self) -> (copy: Snapshot)
        ensures
            copy@ == self@,
    {
        Snapshot {
            current_chapter: clone_opt_chapter(&self.current_chapter),
            is_playing: self.is_playing,
            position: self.position,
        }
    }

    /// Sets the current chapter. Clearing it resets the whole state.
    pub fn set_chapter(&mut self, chapter: Option<AudioChapter>)
        ensures
            final(self)@ == match chapter {
                Some(c) => StateView { current_chapter: Some(c@), ..old(self)@ },
                None => idle_state(),
            },
    {
        match chapter {
            Some(c) => {
                self.current_chapter = Some(c);
            },
            None => {
                self.current_chapter = None;
                self.is_playing = false;
                self.position = Duration::zero();
            },
        }
    }

    /// Records whether the device is playing.
    pub fn set_playing(&mut self, playing: bool)
        ensures
            final(self)@ == (StateView { is_playing: playing, ..old(self)@ }),
    {
        self.is_playing = playing;
    }

    /// Records the playback position.
    pub fn set_position(&mut self, position: Duration)
        ensures
            final(self)@ == (StateView { position, ..old(self)@ }),
    {
        self.position = position;
    }

    /// Applies `command`, whose device calls ended with `outcome`, and
    /// hands back what is to be told: the event, or the error where the
    /// device failed and no chapter is concerned.
    pub fn apply(&mut self, command: PlaybackCommand, outcome: Result<(), BackendError>) -> (reply:
        Result<Option<PlaybackEvent>, BackendError>)
        ensures
            final(self)@ == after_command(old(self)@, command@, failure_view(outcome)),
            reply_view(reply) == reply_after(old(self)@, command@, failure_view(outcome)),
    {
        match outcome {
            Err(error) => {
                match command {
                    PlaybackCommand::LoadAndPlay(chapter) => Ok(
                        Some(PlaybackEvent::ChapterFailed { chapter, error }),
                    ),
                    _ => match clone_opt_chapter(&self.current_chapter) {
                        Some(chapter) => Ok(Some(PlaybackEvent::ChapterFailed { chapter, error })),
                        None => Err(error),
                    },
                }
            },
            Ok(_) => {
                match command {
                    PlaybackCommand::LoadAndPlay(chapter) => {
                        let started = chapter.clone();
                        self.set_chapter(Some(chapter));
                        self.set_playing(true);
                        Ok(Some(PlaybackEvent::ChapterStarted(started)))
                    },
                    PlaybackCommand::Pause => {
                        self.set_playing(false);
                        Ok(None)
                    },
                    PlaybackCommand::Resume => {
                        self.set_playing(true);
                        Ok(None)
                    },
                    PlaybackCommand::Stop => {
                        let ended = clone_opt_chapter(&self.current_chapter);
                        self.set_chapter(None);
                        match ended {
                            Some(chapter) => Ok(Some(PlaybackEvent::ChapterComplete(chapter))),
                            None => Ok(None),
                        }
                    },
                    PlaybackCommand::Seek(at) => {
                        self.set_position(at);
                        Ok(None)
                    },
                }
            },
        }
    }

    /// Takes over the position that the device reported, if it did.
    pub fn note_position(&mut self, reported: Result<Duration, BackendError>)
        ensures
            final(self)@ == after_position(old(self)@, reported_view(reported)),
    {
        match reported {
            Ok(at) => {
                self.set_position(at);
            },
            Err(_) => {},
        }
    }
}

impl Default for PlaybackState {
    fn default() -> (state: PlaybackState)
        ensures
            state@ == idle_state(),
    {
        PlaybackState::new()
    }
}

/// The device calls that `command` asks for, in the order they are made.
pub fn backend_calls(command: &PlaybackCommand) -> (calls: Vec<BackendCall>)
    ensures
        call_views(calls@) == planned_calls(command@),
{
    let mut calls: Vec<BackendCall> = Vec::new();
    match command {
        PlaybackCommand::LoadAndPlay(chapter) => {
            calls.push(BackendCall::Load(chapter.clone()));
            calls.push(BackendCall::Play);
        },
        PlaybackCommand::Pause => {
            calls.push(BackendCall::Pause);
        },
        PlaybackCommand::Resume => {
            calls.push(BackendCall::Play);
        },
        PlaybackCommand::Stop => {
            calls.push(BackendCall::Stop);
        },
        PlaybackCommand::Seek(at) => {
            calls.push(BackendCall::Seek(*at));
        },
    }
    proof {
        assert(call_views(calls@) =~= planned_calls(command@));
    }
    calls
}

/// Whether `done` is an answer of the device to `call`: something that
/// the method which the call names can return, on what the call carries.
pub open spec fn answers<B: AudioBackend>(
    backend: &B,
    call: &BackendCall,
    done: Result<(), BackendError>,
) -> bool {
    match call {
        BackendCall::Load(chapter) => call_ensures(B::load, (backend, chapter), done),
        BackendCall::Play => call_ensures(B::play, (backend,), done),
        BackendCall::Pause => call_ensures(B::pause, (backend,), done),
        BackendCall::Stop => call_ensures(B::stop, (backend,), done),
        BackendCall::Seek(at) => call_ensures(B::seek, (backend, *at), done),
    }
}

/// Makes one call to the device: the method that `call` names, on what
/// the call carries, and hands back what the device answered.
pub fn perform<B: AudioBackend>(backend: &B, call: &BackendCall) -> (done: Result<
    (),
    BackendError,
>)
    ensures
        answers(backend, call, done),
{
    match call {
        BackendCall::Load(chapter) => backend.load(chapter),
        BackendCall::Play => backend.play(),
        BackendCall::Pause => backend.pause(),
        BackendCall::Stop => backend.stop(),
        BackendCall::Seek(at) => backend.seek(*at),
    }
}

/// How a run of device calls ended.
#[derive(Debug)]
pub struct CallsOutcome {
    /// The number of calls that succeeded.
    pub completed: usize,
    /// The error of the call that failed, if one did.
    pub outcome: Result<(), BackendError>,
}

/// Whether a run of `calls` on the device ended as told: the first
/// `completed` calls were made in order and the device answered each with
/// success; then either no call was left, or the device answered the next
/// one with the failure `outcome`, and no call after it was made.
pub open spec fn served<B: AudioBackend>(
    backend: &B,
    calls: Seq<BackendCall>,
    completed: int,
    outcome: Result<(), BackendError>,
) -> bool {
    &&& 0 <= completed <= calls.len()
    &&& outcome is Ok ==> completed == calls.len()
    &&& outcome is Err ==> completed < calls.len() && answers(backend, &calls[completed], outcome)
    &&& forall|i: int| 0 <= i < completed ==> answers(backend, &#[trigger] calls[i], Ok(()))
}

/// Makes `calls` in order and stops at the first that fails: either all
/// of them succeeded, or the one after the completed ones failed and none
/// after it was made.
pub fn run_calls<B: AudioBackend>(backend: &B, calls: &Vec<BackendCall>) -> (run: CallsOutcome)
    ensures
        served(backend, calls@, run.completed as int, run.outcome),
{
    let mut i: usize = 0;
    while i < calls.len()
        invariant
            i <= calls.len(),
            forall|k: int| 0 <= k < i ==> answers(backend, &#[trigger] calls@[k], Ok(())),
        decreases calls.len() - i,
    {
        let done = perform(backend, &calls[i]);
        if done.is_err() {
            return CallsOutcome { completed: i, outcome: done };
        }
        proof {
            assert(done is Ok);
            assert(done->Ok_0 == ());
            assert(done == Ok::<(), BackendError>(done->Ok_0));
        }
        i = i + 1;
    }
    CallsOutcome { completed: i, outcome: Ok(()) }
}

/// Whether serving `command` on the device can lead from the state
/// `before` to the state `after` with the reply `reply`: the device calls
/// that the command asks for were made in order up to the first failure,
/// their outcome was applied, and the position that the device then
/// reported was recorded.
pub open spec fn handled<B: AudioBackend>(
    backend: &B,
    before: StateView,
    command: CommandView,
    after: StateView,
    reply: Result<Option<EventView>, Seq<char>>,
) -> bool {
    exists|
        calls: Seq<BackendCall>,
        completed: int,
        outcome: Result<(), BackendError>,
        reported: Result<Duration, BackendError>,
    |
        {
            &&& call_views(calls) == planned_calls(command)
            &&& #[trigger] served(backend, calls, completed, outcome)
            &&& #[trigger] call_ensures(B::position, (backend,), reported)
            &&& after == after_step(before, command, failure_view(outcome), reported_view(reported))
            &&& reply == reply_after(before, command, failure_view(outcome))
        }
}

/// Serves one command: makes the device calls it asks for, applies their
/// outcome to `state`, then asks the device for its position and records
/// it. A device failure leaves the command without effect and is handed
/// back, as a failure event where a chapter is concerned.
///
/// The device decides whether its calls succeed and what position it
/// reports; state and reply are those of [`after_step`] and
/// [`reply_after`] for what it answered.
pub fn handle_command<B: AudioBackend>(
    command: PlaybackCommand,
    backend: &B,
    state: &mut PlaybackState,
) -> (reply: Result<Option<PlaybackEvent>, BackendError>)
    ensures
        handled(backend, old(state)@, command@, final(state)@, reply_view(reply)),
{
    let calls = backend_calls(&command);
    let run = run_calls(backend, &calls);
    let ghost made = calls@;
    let ghost completed = run.completed as int;
    let ghost outcome = run.outcome;
    let reply = state.apply(command, run.outcome);
    let reported = backend.position();
    let ghost seen = reported;
    state.note_position(reported);
    proof {
        assert(served(backend, made, completed, outcome));
        assert(call_ensures(B::position, (backend,), seen));
        assert(state@ == after_step(
            old(state)@,
            command@,
            failure_view(outcome),
            reported_view(seen),
        ));
    }
    reply
}

/// The one owner of a device and of the playback state that goes with it.
pub struct PlaybackController<B: AudioBackend> {
    backend: B,
    state: PlaybackState,
}

impl<B: AudioBackend> PlaybackController<B> {
    /// The playback state, as mathematical values.
    pub closed spec fn state_view(&self) -> StateView {
        self.state@
    }

    /// The device that the controller drives.
    pub closed spec fn device(&self) -> B {
        self.backend
    }

    /// A controller for `backend`, idle.
    pub fn new(backend: B) -> (controller: Self)
        ensures
            controller.state_view() == idle_state(),
            controller.device() == backend,
    {
        PlaybackController { backend, state: PlaybackState::new() }
    }

    /// A copy of the playback state as it is now.
    pub fn state(&self) -> (copy: Snapshot)
        ensures
            copy@ == self.state_view(),
    {
        self.state.snapshot()
    }

    /// Serves one command, as [`handle_command`] does, on the controller's
    /// own device and state. The device stays the same.
    pub fn process(&mut self, command: PlaybackCommand) -> (reply: Result<
        Option<PlaybackEvent>,
        BackendError,
    >)
        ensures
            final(self).device() == old(self).device(),
            handled(
                &old(self).device(),
                old(self).state_view(),
                command@,
                final(self).state_view(),
                reply_view(reply),
            ),
    {
        handle_command(command, &self.backend, &mut self.state)
    }
}

/// Loading a chapter and then stopping, with a device that does as it is
/// told: the load starts the chapter, the stop completes the same
/// chapter, and at the end nothing is current and nothing plays.
pub proof fn lemma_load_then_stop(
    state: StateView,
    chapter: AudioChapterView,
    first_report: Option<Duration>,
    second_report: Option<Duration>,
)
    ensures
        ({
            let load = CommandView::LoadAndPlay(chapter);
            let loaded = after_step(state, load, None, first_report);
            let stopped = after_step(loaded, CommandView::Stop, None, second_report);
            &&& reply_after(state, load, None) == Ok::<Option<EventView>, Seq<char>>(
                Some(EventView::ChapterStarted(chapter)),
            )
            &&& loaded.current_chapter == Some(chapter)
            &&& loaded.is_playing
            &&& reply_after(loaded, CommandView::Stop, None) == Ok::<Option<EventView>, Seq<char>>(
                Some(EventView::ChapterComplete(chapter)),
            )
            &&& stopped.current_chapter is None
            &&& !stopped.is_playing
        }),
{
}

/// Pausing twice in a row, with a device that does as it is told: nothing
/// plays after the first pause nor after the second, neither pause gives
/// rise to an event, and the second changes nothing but the position that
/// the device reports.
pub proof fn lemma_pause_twice(
    state: StateView,
    first_report: Option<Duration>,
    second_report: Option<Duration>,
)
    ensures
        ({
            let once = after_step(state, CommandView::Pause, None, first_report);
            let twice = after_step(once, CommandView::Pause, None, second_report);
            &&& !once.is_playing
            &&& !twice.is_playing
            &&& reply_after(state, CommandView::Pause, None) == Ok::<Option<EventView>, Seq<char>>(
                None,
            )
            &&& reply_after(once, CommandView::Pause, None) == Ok::<Option<EventView>, Seq<char>>(
                None,
            )
            &&& twice == after_position(once, second_report)
        }),
{
}

/// Whatever the device does, a command gives rise to at most one event,
/// and to a failure event only where the device failed.
pub proof fn lemma_failure_only_on_failure(
    state: StateView,
    command: CommandView,
    failure: Option<Seq<char>>,
)
    ensures
        failure is None ==> reply_after(state, command, failure) is Ok && !(reply_after(
            state,
            command,
            failure,
        )->Ok_0 matches Some(EventView::ChapterFailed { .. })),
        failure is Some ==> after_command(state, command, failure) == state,
{
}

} // verus!
