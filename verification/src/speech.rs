//! Speech engines and the registry that holds them.

use crate::chars::same_text;
use crate::model::{clone_opt_string, opt_chars};
use std::sync::Arc;
use vstd::prelude::*;

verus! {

/// The slowest rate a synthesis request can ask for, in thousandths.
pub const MIN_RATE_MILLI: u32 = 250;

/// The fastest rate a synthesis request can ask for, in thousandths.
pub const MAX_RATE_MILLI: u32 = 4000;

/// The rate of normal speech, in thousandths.
pub const DEFAULT_RATE_MILLI: u32 = 1000;

/// A block of PCM audio returned by a speech engine.
#[derive(Debug)]
pub struct AudioChunk {
    pub samples: Vec<i16>,
    pub sample_rate: u32,
    pub channels: u16,
}

/// The sample rate taken for audio whose engine reports none.
pub const DEFAULT_SAMPLE_RATE: u32 = 16_000;

impl AudioChunk {
    /// The block that holds `samples` as an engine reported them, with
    /// the rate and the number of channels as it counts them: a rate that
    /// is not positive stands for 16 kHz, and a number of channels that is
    /// not positive for one channel. A number of channels is taken by its
    /// low 16 bits.
    pub fn from_wave(samples: Vec<i16>, sample_rate: i32, channels: i32) -> (chunk: AudioChunk)
        ensures
            chunk.samples == samples,
            chunk.sample_rate == if sample_rate <= 0 {
                DEFAULT_SAMPLE_RATE
            } else {
                sample_rate as u32
            },
            chunk.channels == if channels <= 0 {
                1u16
            } else {
                ((channels as int) % 0x1_0000) as u16
            },
    {
        let rate: u32 = if sample_rate <= 0 {
            DEFAULT_SAMPLE_RATE
        } else {
            sample_rate as u32
        };
        let lanes: u16 = if channels <= 0 {
            1
        } else {
            ((channels as u32) % 0x1_0000u32) as u16
        };
        AudioChunk { samples, sample_rate: rate, channels: lanes }
    }
}

/// Whether `voice` is one of the voices `supported`.
pub open spec fn is_supported(supported: Seq<&'static str>, voice: Seq<char>) -> bool {
    exists|i: int| 0 <= i < supported.len() && (#[trigger] supported[i])@ == voice
}

/// The voice to speak with: the requested one where the engine supports
/// it, else the engine's default.
pub fn choose_voice(
    requested: Option<&str>,
    supported: &Vec<&'static str>,
    default: &'static str,
) -> (voice: &'static str)
    ensures
        voice@ == if requested is Some && is_supported(supported@, requested->Some_0@) {
            requested->Some_0@
        } else {
            default@
        },
{
    match requested {
        Some(wanted) => {
            let mut i: usize = 0;
            while i < supported.len()
                invariant
                    i <= supported.len(),
                    requested == Some(wanted),
                    forall|k: int| 0 <= k < i ==> (#[trigger] supported@[k])@ != wanted@,
                decreases supported.len() - i,
            {
                if same_text(supported[i], wanted) {
                    proof {
                        assert(supported@[i as int]@ == wanted@);
                        assert(is_supported(supported@, wanted@));
                    }
                    return supported[i];
                }
                i = i + 1;
            }
            default
        },
        None => default,
    }
}

/// The rate that a request for `rate_milli` is served at: the default
/// where none is given, else the rate held to the range that engines
/// accept.
pub open spec fn request_rate(rate_milli: u32) -> u32 {
    if rate_milli == 0 {
        DEFAULT_RATE_MILLI
    } else if rate_milli < MIN_RATE_MILLI {
        MIN_RATE_MILLI
    } else if rate_milli > MAX_RATE_MILLI {
        MAX_RATE_MILLI
    } else {
        rate_milli
    }
}

/// What a synthesis request asks for besides the text.
#[derive(Debug)]
pub struct SynthesisOptions {
    /// The speaking rate in thousandths: 1000 is normal speech.
    pub rate_milli: u32,
    pub voice: Option<String>,
}

impl SynthesisOptions {
    /// Options for the given rate and voice. A rate of zero stands for
    /// the default; any other is held to 250..=4000.
    pub fn new(rate_milli: u32, voice: Option<String>) -> (opts: SynthesisOptions)
        ensures
            opts.rate_milli == request_rate(rate_milli),
            MIN_RATE_MILLI <= opts.rate_milli <= MAX_RATE_MILLI,
            opt_chars(opts.voice) == opt_chars(voice),
    {
        let rate: u32 = if rate_milli == 0 {
            DEFAULT_RATE_MILLI
        } else if rate_milli < MIN_RATE_MILLI {
            MIN_RATE_MILLI
        } else if rate_milli > MAX_RATE_MILLI {
            MAX_RATE_MILLI
        } else {
            rate_milli
        };
        SynthesisOptions { rate_milli: rate, voice }
    }
}

/// Why an engine produced no audio.
#[derive(Debug)]
pub struct SynthesisError {
    pub message: String,
}

/// A pluggable text-to-speech backend. Nothing is assumed of what an
/// implementation returns.
pub trait SpeechEngine: Send + Sync {
    /// The engine's stable identifier.
    fn id(&self) -> &'static str;

    /// A description for people.
    fn description(&self) -> &'static str;

    /// The voice used where none is asked for.
    fn default_voice(&self) -> &'static str;

    /// The voices that the engine knows.
    fn supported_voices(&self) -> Vec<&'static str>;

    /// Speaks `text`.
    fn synthesize(&self, text: &str, opts: &SynthesisOptions) -> Result<AudioChunk, SynthesisError>;
}

/// A speech engine shared by everyone who resolved it.
pub type SharedEngine = Arc<Box<dyn SpeechEngine>>;

/// The engine that stands in where none is configured: it fails every
/// request.
#[derive(Debug, Clone, Copy)]
pub struct NullEngine;

impl SpeechEngine for NullEngine {
    fn id(&self) -> (id: &'static str)
        ensures
            id@ == "null"@,
    {
        "null"
    }

    fn description(&self) -> (text: &'static str)
        ensures
            text@ == "No-op speech engine"@,
    {
        "No-op speech engine"
    }

    fn default_voice(&self) -> (voice: &'static str)
        ensures
            voice@ == "none"@,
    {
        "none"
    }

    fn supported_voices(&self) -> (voices: Vec<&'static str>)
        ensures
            voices@.len() == 1,
            voices@[0]@ == "none"@,
    {
        let mut voices: Vec<&'static str> = Vec::new();
        voices.push("none");
        voices
    }

    fn synthesize(&self, text: &str, opts: &SynthesisOptions) -> (audio: Result<
        AudioChunk,
        SynthesisError,
    >)
        ensures
            audio is Err,
            audio->Err_0.message@ == "no speech engine is configured"@,
    {
        Err(SynthesisError { message: "no speech engine is configured".to_owned() })
    }
}

/// Why the registry could not do what was asked.
#[derive(Debug)]
pub enum RegistryError {
    /// The model-backed engine is not part of this build.
    PiperUnavailable,
    /// Loading a model failed, with the loader's message.
    LoadFailed(String),
    /// No engine is registered under the requested identifier.
    UnknownEngine(String),
}

/// A [`RegistryError`] as mathematical values.
pub enum RegistryErrorView {
    PiperUnavailable,
    LoadFailed(Seq<char>),
    UnknownEngine(Seq<char>),
}

impl View for RegistryError {
    type V = RegistryErrorView;

    open spec fn view(&self) -> RegistryErrorView {
        match self {
            RegistryError::PiperUnavailable => RegistryErrorView::PiperUnavailable,
            RegistryError::LoadFailed(m) => RegistryErrorView::LoadFailed(m@),
            RegistryError::UnknownEngine(id) => RegistryErrorView::UnknownEngine(id@),
        }
    }
}

/// One registered engine under the identifier it was registered with.
pub struct EngineEntry {
    id: String,
    engine: SharedEngine,
}

/// The set of available speech engines and the one used by default.
pub struct EngineRegistry {
    entries: Vec<EngineEntry>,
    default_engine: String,
}

/// A resolved engine with the voice chosen for it.
pub struct EngineHandle {
    pub engine_id: String,
    pub engine: SharedEngine,
    pub voice: Option<String>,
}

impl EngineHandle {
    /// The chosen voice, if one was chosen.
    pub fn voice(&self) -> (voice: Option<&str>)
        ensures
            voice is Some == self.voice is Some,
            voice is Some ==> voice->Some_0@ == self.voice->Some_0@,
    {
        match &self.voice {
            Some(v) => Some(v.as_str()),
            None => None,
        }
    }
}

impl Clone for EngineHandle {
    fn clone(&self) -> (copy: EngineHandle)
        ensures
            copy.engine_id@ == self.engine_id@,
            copy.engine == self.engine,
            opt_chars(copy.voice) == opt_chars(self.voice),
    {
        EngineHandle {
            engine_id: self.engine_id.clone(),
            engine: Arc::clone(&self.engine),
            voice: clone_opt_string(&self.voice),
        }
    }
}

impl EngineRegistry {
    /// The identifiers of the registered engines, in the order in which
    /// they were first registered.
    pub closed spec fn ids(&self) -> Seq<Seq<char>> {
        self.entries@.map_values(|e: EngineEntry| e.id@)
    }

    /// The registered engines, each at the place of its identifier.
    pub closed spec fn engines(&self) -> Seq<SharedEngine> {
        self.entries@.map_values(|e: EngineEntry| e.engine)
    }

    /// The identifier of the engine used where none is asked for.
    pub closed spec fn default_id(&self) -> Seq<char> {
        self.default_engine@
    }

    /// What every registry upholds: no identifier is registered twice,
    /// and the default is registered.
    pub open spec fn wf(&self) -> bool {
        &&& self.ids().no_duplicates()
        &&& self.ids().len() == self.engines().len()
        &&& self.ids().contains(self.default_id())
    }

    /// The engine registered under `id`.
    pub open spec fn engine_of(&self, id: Seq<char>) -> SharedEngine {
        self.engines()[self.ids().index_of(id)]
    }

    /// A registry that holds the null engine alone, as its default.
    pub fn new() -> (registry: EngineRegistry)
        ensures
            registry.wf(),
            registry.ids() == seq!["null"@],
            registry.default_id() == "null"@,
    {
        let boxed: Box<dyn SpeechEngine> = Box::new(NullEngine);
        let engine: SharedEngine = Arc::new(boxed);
        let mut entries: Vec<EngineEntry> = Vec::new();
        entries.push(EngineEntry { id: "null".to_owned(), engine });
        let registry = EngineRegistry { entries, default_engine: "null".to_owned() };
        proof {
            assert(registry.ids() =~= seq!["null"@]);
            assert(registry.ids()[0] == "null"@);
        }
        registry
    }

    /// The place of the engine registered under `id`, if there is one.
    fn find(&self, id: &str) -> (found: Option<usize>)
        ensures
            match found {
                Some(i) => i < self.ids().len() && self.ids()[i as int] == id@,
                None => !self.ids().contains(id@),
            },
    {
        let mut i: usize = 0;
        while i < self.entries.len()
            invariant
                i <= self.entries.len(),
                forall|k: int| 0 <= k < i ==> self.ids()[k] != id@,
            decreases self.entries.len() - i,
        {
            if same_text(self.entries[i].id.as_str(), id) {
                return Some(i);
            }
            i = i + 1;
        }
        None
    }
}

impl Default for EngineRegistry {
    fn default() -> (registry: EngineRegistry)
        ensures
            registry.wf(),
            registry.ids() == seq!["null"@],
            registry.default_id() == "null"@,
    {
        EngineRegistry::new()
    }
}

/// What registering `engine` under `id` makes of a registry: an engine
/// already registered under `id` is replaced, else the newcomer is added
/// at the end; every other engine stays; and while the default is still
/// the null engine, `id` becomes the default.
pub open spec fn registered(
    before: &EngineRegistry,
    after: &EngineRegistry,
    id: Seq<char>,
    engine: SharedEngine,
) -> bool {
    &&& after.ids() == if before.ids().contains(id) {
        before.ids()
    } else {
        before.ids().push(id)
    }
    &&& after.engines() == if before.ids().contains(id) {
        before.engines().update(before.ids().index_of(id), engine)
    } else {
        before.engines().push(engine)
    }
    &&& after.engine_of(id) == engine
    &&& after.default_id() == if before.default_id() == "null"@ {
        id
    } else {
        before.default_id()
    }
}

/// Registers `engine` under `id`: see [`registered`].
pub fn register_as(registry: &mut EngineRegistry, id: &str, engine: SharedEngine)
    requires
        old(registry).wf(),
    ensures
        final(registry).wf(),
        registered(old(registry), final(registry), id@, engine),
{
    let ghost before_ids = registry.ids();
    let ghost before_engines = registry.engines();
    match registry.find(id) {
        Some(i) => {
            proof {
                assert(before_ids.contains(id@));
                assert(before_ids.index_of(id@) == i as int);
            }
            let key = registry.entries[i].id.clone();
            registry.entries.set(i, EngineEntry { id: key, engine: Arc::clone(&engine) });
            proof {
                assert(registry.ids() =~= before_ids);
                assert(registry.engines() =~= before_engines.update(i as int, engine));
            }
        },
        None => {
            registry.entries.push(EngineEntry { id: id.to_owned(), engine: Arc::clone(&engine) });
            proof {
                assert(registry.ids() =~= before_ids.push(id@));
                assert(registry.engines() =~= before_engines.push(engine));
                let after = registry.ids();
                assert(after[after.len() - 1] == id@);
                assert(after.index_of(id@) == after.len() - 1);
                assert forall|k: int| 0 <= k < before_ids.len() implies after.contains(
                    before_ids[k],
                ) by {
                    assert(after[k] == before_ids[k]);
                }
            }
        },
    }
    proof {
        let after = registry.ids();
        let k = choose|k: int| 0 <= k < after.len() && after[k] == id@;
        assert(after.contains(id@));
        let d = before_ids.index_of(registry.default_engine@);
        assert(before_ids.contains(registry.default_engine@));
        assert(after[d] == registry.default_engine@);
    }
    if same_text(registry.default_engine.as_str(), "null") {
        registry.default_engine = id.to_owned();
    }
}

/// Registers `engine` under the identifier that it gives itself, and
/// hands that identifier back: see [`registered`].
pub fn register_engine(registry: &mut EngineRegistry, engine: SharedEngine) -> (id: &'static str)
    requires
        old(registry).wf(),
    ensures
        final(registry).wf(),
        registered(old(registry), final(registry), id@, engine),
{
    let id: &'static str = engine.id();
    register_as(registry, id, engine);
    id
}

/// Makes the engine registered under `id` the default. Where none is
/// registered under it, nothing changes and the identifier comes back as
/// unknown.
pub fn set_default_engine(registry: &mut EngineRegistry, id: &str) -> (done: Result<
    (),
    RegistryError,
>)
    requires
        old(registry).wf(),
    ensures
        final(registry).wf(),
        final(registry).ids() == old(registry).ids(),
        final(registry).engines() == old(registry).engines(),
        done is Ok <==> old(registry).ids().contains(id@),
        done is Ok ==> final(registry).default_id() == id@,
        done is Err ==> final(registry).default_id() == old(registry).default_id() && done->Err_0@
            == RegistryErrorView::UnknownEngine(id@),
{
    match registry.find(id) {
        Some(_) => {
            registry.default_engine = id.to_owned();
            Ok(())
        },
        None => Err(RegistryError::UnknownEngine(id.to_owned())),
    }
}

/// The texts of a list of strings.
pub open spec fn texts(list: Seq<String>) -> Seq<Seq<char>> {
    list.map_values(|s: String| s@)
}

/// The identifiers of all registered engines, in the order in which they
/// were first registered.
pub fn available_engines(registry: &EngineRegistry) -> (ids: Vec<String>)
    ensures
        texts(ids@) == registry.ids(),
{
    let mut ids: Vec<String> = Vec::new();
    let mut i: usize = 0;
    while i < registry.entries.len()
        invariant
            i <= registry.entries.len(),
            ids@.len() == i,
            texts(ids@) == registry.ids().take(i as int),
        decreases registry.entries.len() - i,
    {
        let ghost before = ids@;
        ids.push(registry.entries[i].id.clone());
        proof {
            assert(ids@[i as int]@ == registry.ids()[i as int]);
            assert forall|k: int| 0 <= k < i implies texts(ids@)[k] == registry.ids()[k] by {
                assert(ids@[k] == before[k]);
                assert(texts(before)[k] == registry.ids().take(i as int)[k]);
            }
            assert(texts(ids@) =~= registry.ids().take(i + 1));
        }
        i = i + 1;
    }
    proof {
        assert(registry.ids().take(i as int) =~= registry.ids());
    }
    ids
}

/// The identifier that a request resolves to: the requested one, else
/// the default.
pub open spec fn resolved_id(registry: &EngineRegistry, requested: Option<Seq<char>>) -> Seq<char> {
    match requested {
        Some(id) => id,
        None => registry.default_id(),
    }
}

/// The text of an optional string slice.
pub open spec fn opt_text(text: Option<&str>) -> Option<Seq<char>> {
    match text {
        Some(s) => Some(s@),
        None => None,
    }
}

/// Resolves an engine: the one registered under `engine_id` where an
/// identifier is given, else the default. An identifier that is not
/// registered is refused as unknown. The registry is only read.
pub fn resolve_engine(registry: &EngineRegistry, engine_id: Option<&str>, voice: Option<String>) -> (
    resolved: Result<EngineHandle, RegistryError>)
    requires
        registry.wf(),
    ensures
        resolved is Ok <==> registry.ids().contains(resolved_id(registry, opt_text(engine_id))),
        resolved matches Ok(handle) ==> handle.engine_id@ == resolved_id(
            registry,
            opt_text(engine_id),
        ) && handle.engine == registry.engine_of(handle.engine_id@) && opt_chars(handle.voice)
            == opt_chars(voice),
        resolved matches Err(error) ==> engine_id is Some && error@
            == RegistryErrorView::UnknownEngine(engine_id->Some_0@),
{
    match engine_id {
        Some(requested) => match registry.find(requested) {
            Some(i) => {
                proof {
                    assert(registry.ids().contains(requested@));
                    assert(registry.ids().index_of(requested@) == i as int);
                }
                Ok(
                    EngineHandle {
                        engine_id: requested.to_owned(),
                        engine: Arc::clone(&registry.entries[i].engine),
                        voice,
                    },
                )
            },
            None => Err(RegistryError::UnknownEngine(requested.to_owned())),
        },
        None => {
            let i = registry.find(registry.default_engine.as_str()).unwrap();
            proof {
                assert(registry.ids().index_of(registry.default_engine@) == i as int);
            }
            Ok(
                EngineHandle {
                    engine_id: registry.default_engine.clone(),
                    engine: Arc::clone(&registry.entries[i].engine),
                    voice,
                },
            )
        },
    }
}

/// The engine and voice that the surroundings ask for, each as it was
/// found there.
#[derive(Debug)]
pub struct EngineSelection {
    /// The requested engine, if one was named.
    pub engine_id: Option<String>,
    /// The requested voice, if one was named.
    pub voice: Option<String>,
    /// The voice to use with the default engine where the requested
    /// engine is not to be had.
    pub fallback_voice: Option<String>,
}

/// Resolves the engine that `selection` asks for, and falls back to the
/// default engine with the fallback voice where that engine is not
/// registered. Never fails.
pub fn resolve_from_environment(registry: &EngineRegistry, selection: EngineSelection) -> (handle:
    EngineHandle)
    requires
        registry.wf(),
    ensures
        handle.engine == registry.engine_of(handle.engine_id@),
        registry.ids().contains(handle.engine_id@),
        registry.ids().contains(resolved_id(registry, opt_chars(selection.engine_id)))
            ==> handle.engine_id@ == resolved_id(registry, opt_chars(selection.engine_id))
            && opt_chars(handle.voice) == opt_chars(selection.voice),
        !registry.ids().contains(resolved_id(registry, opt_chars(selection.engine_id)))
            ==> handle.engine_id@ == registry.default_id() && opt_chars(handle.voice) == opt_chars(
            selection.fallback_voice,
        ),
{
    let requested: Option<&str> = match &selection.engine_id {
        Some(id) => Some(id.as_str()),
        None => None,
    };
    match resolve_engine(registry, requested, selection.voice) {
        Ok(handle) => handle,
        Err(_) => resolve_engine(registry, None, selection.fallback_voice).unwrap(),
    }
}

} // verus!
