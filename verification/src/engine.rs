//! Frame-producing engines: the mock engine, the model-backed engine and
//! the single-slot cache that keeps the latter loaded.

use crate::chunker::AudioFrame;
use crate::model::opt_chars;
use crate::speech::RegistryError;
use crate::speech::RegistryErrorView;
use std::marker::PhantomData;
use std::sync::Arc;
use vstd::prelude::*;
use vstd::string::StringExecFns;

verus! {

/// An engine that turns text into tagged audio frames. Nothing is assumed
/// of what an implementation returns.
pub trait TTSEngine: Send + Sync {
    fn synthesize(&self, text: &str) -> Result<Vec<AudioFrame>, String>;
}

/// A frame-producing engine shared by everyone who was handed it.
pub type SharedTts = Arc<Box<dyn TTSEngine>>;

/// How to load the model-backed engine.
#[derive(Debug)]
pub struct PiperBackendConfig {
    pub model_path: String,
    pub config_path: Option<String>,
    pub speaker: Option<String>,
    pub sample_rate: Option<u32>,
}

/// Which engine a request is to be served by.
#[derive(Debug)]
pub enum EngineBackend {
    Auto { model_path: String },
    Piper(PiperBackendConfig),
}

/// What the engines are doing, for display.
#[derive(Debug)]
pub struct TtsState {
    pub is_playing: bool,
    pub current_model: String,
}

/// One frame as it is streamed to a listener.
#[derive(Debug)]
pub struct AudioChunk {
    pub pcm: Vec<i16>,
    pub sample_rate: u32,
    pub start_text_idx: usize,
}

/// A listener that takes whatever it is given and keeps nothing.
#[derive(Debug)]
pub struct StreamSink<T> {
    _phantom: PhantomData<T>,
}

impl<T> StreamSink<T> {
    /// A new listener.
    pub fn new() -> Self {
        StreamSink { _phantom: PhantomData }
    }

    /// Takes a value. Always succeeds.
    pub fn add(&self, _value: T) -> (done: Result<(), ()>)
        ensures
            done is Ok,
    {
        Ok(())
    }

    /// Takes an error. Always succeeds.
    pub fn add_error<E>(&self, _value: E) -> (done: Result<(), ()>)
        ensures
            done is Ok,
    {
        Ok(())
    }

    /// Closes the stream. Always succeeds.
    pub fn close(&self) -> (done: Result<(), ()>)
        ensures
            done is Ok,
    {
        Ok(())
    }
}

/// The key under which a loaded engine is cached: model path, config
/// path (the model path where none is given) and speaker (`default`
/// where none is given), joined by `::`.
pub open spec fn fingerprint_of(
    model_path: Seq<char>,
    config_path: Option<Seq<char>>,
    speaker: Option<Seq<char>>,
) -> Seq<char> {
    model_path + "::"@ + match config_path {
        Some(path) => path,
        None => model_path,
    } + "::"@ + match speaker {
        Some(name) => name,
        None => "default"@,
    }
}

/// The cache key of `config`.
pub open spec fn config_fingerprint(config: &PiperBackendConfig) -> Seq<char> {
    fingerprint_of(config.model_path@, opt_chars(config.config_path), opt_chars(config.speaker))
}

/// The cache key of `config`.
pub fn fingerprint(config: &PiperBackendConfig) -> (key: String)
    ensures
        key@ == config_fingerprint(config),
{
    let mut key = config.model_path.clone();
    key.append("::");
    match &config.config_path {
        Some(path) => key.append(path.as_str()),
        None => key.append(config.model_path.as_str()),
    }
    key.append("::");
    match &config.speaker {
        Some(name) => key.append(name.as_str()),
        None => key.append("default"),
    }
    key
}

/// The model path that a backend choice names.
pub fn backend_model_path(backend: &EngineBackend) -> (path: &str)
    ensures
        path@ == match backend {
            EngineBackend::Auto { model_path } => model_path@,
            EngineBackend::Piper(config) => config.model_path@,
        },
{
    match backend {
        EngineBackend::Auto { model_path } => model_path.as_str(),
        EngineBackend::Piper(config) => config.model_path.as_str(),
    }
}

/// What resolving a backend choice comes to.
pub enum Resolution {
    /// This engine serves the choice.
    Ready(SharedTts),
    /// The model has to be loaded, and the loaded engine installed.
    Load,
}

/// The one loaded engine and the key it was loaded for.
struct CachedEngine {
    fingerprint: String,
    engine: SharedTts,
}

/// The engines at hand: the mock engine, at most one loaded model-backed
/// engine, and the name of the model that was last asked for.
pub struct EngineRegistryHandle {
    mock_engine: SharedTts,
    cached: Option<CachedEngine>,
    active_model: Option<String>,
}

impl EngineRegistryHandle {
    /// The mock engine.
    pub closed spec fn mock(&self) -> SharedTts {
        self.mock_engine
    }

    /// The key of the cached engine, if one is cached.
    pub closed spec fn cached_key(&self) -> Option<Seq<char>> {
        match self.cached {
            Some(c) => Some(c.fingerprint@),
            None => None,
        }
    }

    /// The cached engine, where one is cached.
    pub closed spec fn cached_engine(&self) -> SharedTts {
        self.cached->Some_0.engine
    }

    /// The model that was last asked for, if any was.
    pub closed spec fn active(&self) -> Option<Seq<char>> {
        opt_chars(self.active_model)
    }

    /// Whether a lookup for the key `key` is served from the cache.
    pub open spec fn hits(&self, key: Seq<char>) -> bool {
        self.cached_key() == Some(key)
    }

    /// Engines with the given mock engine, nothing cached and no model
    /// asked for yet.
    pub fn new(mock_engine: SharedTts) -> (handle: EngineRegistryHandle)
        ensures
            handle.mock() == mock_engine,
            handle.cached_key() is None,
            handle.active() is None,
    {
        EngineRegistryHandle { mock_engine, cached: None, active_model: None }
    }

    /// The model that was last asked for, if any was.
    pub fn active_model(&self) -> (model: Option<String>)
        ensures
            opt_chars(model) == self.active(),
    {
        crate::model::clone_opt_string(&self.active_model)
    }

    /// Hands out the mock engine and notes `label` as the model asked
    /// for. The cache stays as it is.
    pub fn mock_engine(&mut self, label: &str) -> (engine: SharedTts)
        ensures
            engine == old(self).mock(),
            final(self).mock() == old(self).mock(),
            final(self).active() == Some(label@),
            final(self).cached_key() == old(self).cached_key(),
            final(self).cached_engine() == old(self).cached_engine(),
    {
        self.active_model = Some(label.to_owned());
        Arc::clone(&self.mock_engine)
    }

    /// Looks `config` up in the cache. On a hit the cached engine is
    /// handed out and the model is noted as asked for; on a miss nothing
    /// changes.
    pub fn cached_piper(&mut self, config: &PiperBackendConfig) -> (found: Option<SharedTts>)
        ensures
            found is Some <==> old(self).hits(config_fingerprint(config)),
            found is Some ==> found->Some_0 == old(self).cached_engine(),
            final(self).mock() == old(self).mock(),
            final(self).cached_key() == old(self).cached_key(),
            final(self).cached_engine() == old(self).cached_engine(),
            final(self).active() == if found is Some {
                Some(config.model_path@)
            } else {
                old(self).active()
            },
    {
        let key = fingerprint(config);
        let hit: Option<SharedTts> = match &self.cached {
            Some(cache) => if cache.fingerprint == key {
                Some(Arc::clone(&cache.engine))
            } else {
                None
            },
            None => None,
        };
        if hit.is_some() {
            self.active_model = Some(config.model_path.clone());
        }
        hit
    }

    /// Takes in what loading the engine for `config` gave. A loaded
    /// engine replaces whatever was cached, is noted as asked for and is
    /// handed out; a failed load changes nothing and is reported with the
    /// loader's message.
    pub fn install_piper(&mut self, config: &PiperBackendConfig, loaded: Result<SharedTts, String>) -> (
        installed: Result<SharedTts, RegistryError>)
        ensures
            final(self).mock() == old(self).mock(),
            match loaded {
                Ok(engine) => {
                    &&& installed == Ok::<SharedTts, RegistryError>(engine)
                    &&& final(self).cached_key() == Some(config_fingerprint(config))
                    &&& final(self).cached_engine() == engine
                    &&& final(self).active() == Some(config.model_path@)
                },
                Err(message) => {
                    &&& installed is Err
                    &&& installed->Err_0@ == RegistryErrorView::LoadFailed(message@)
                    &&& final(self).cached_key() == old(self).cached_key()
                    &&& final(self).cached_engine() == old(self).cached_engine()
                    &&& final(self).active() == old(self).active()
                },
            },
    {
        match loaded {
            Ok(engine) => {
                self.cached = Some(
                    CachedEngine { fingerprint: fingerprint(config), engine: Arc::clone(&engine) },
                );
                self.active_model = Some(config.model_path.clone());
                Ok(engine)
            },
            Err(message) => Err(RegistryError::LoadFailed(message)),
        }
    }

    /// Resolves a backend choice. The mock engine serves `Auto`. A model
    /// is refused where the model-backed engine is not part of the build
    /// (`piper_available` says whether it is); else it is served from the
    /// cache where its key is cached, and is to be loaded where not.
    pub fn resolve_engine(&mut self, backend: &EngineBackend, piper_available: bool) -> (resolved:
        Result<Resolution, RegistryError>)
        ensures
            final(self).mock() == old(self).mock(),
            final(self).cached_key() == old(self).cached_key(),
            final(self).cached_engine() == old(self).cached_engine(),
            match backend {
                EngineBackend::Auto { model_path } => {
                    &&& resolved == Ok::<Resolution, RegistryError>(
                        Resolution::Ready(old(self).mock()),
                    )
                    &&& final(self).active() == Some(model_path@)
                },
                EngineBackend::Piper(config) => if !piper_available {
                    &&& resolved is Err
                    &&& resolved->Err_0@ == RegistryErrorView::PiperUnavailable
                    &&& final(self).active() == old(self).active()
                } else if old(self).hits(config_fingerprint(config)) {
                    &&& resolved == Ok::<Resolution, RegistryError>(
                        Resolution::Ready(old(self).cached_engine()),
                    )
                    &&& final(self).active() == Some(config.model_path@)
                } else {
                    &&& resolved == Ok::<Resolution, RegistryError>(Resolution::Load)
                    &&& final(self).active() == old(self).active()
                },
            },
    {
        match backend {
            EngineBackend::Auto { model_path } => Ok(
                Resolution::Ready(self.mock_engine(model_path.as_str())),
            ),
            EngineBackend::Piper(config) => {
                if !piper_available {
                    Err(RegistryError::PiperUnavailable)
                } else {
                    match self.cached_piper(config) {
                        Some(engine) => Ok(Resolution::Ready(engine)),
                        None => Ok(Resolution::Load),
                    }
                }
            },
        }
    }
}

/// The state to display for `registry`: never playing, and the model
/// that was last asked for, `unloaded` where there is none or no
/// registry.
pub fn current_state(registry: Option<&EngineRegistryHandle>) -> (state: TtsState)
    ensures
        !state.is_playing,
        state.current_model@ == match registry {
            Some(handle) => match handle.active() {
                Some(model) => model,
                None => "unloaded"@,
            },
            None => "unloaded"@,
        },
{
    let model: Option<String> = match registry {
        Some(handle) => handle.active_model(),
        None => None,
    };
    match model {
        Some(name) => TtsState { is_playing: false, current_model: name },
        None => TtsState { is_playing: false, current_model: "unloaded".to_owned() },
    }
}

/// The views of a list of streamed chunks.
pub open spec fn chunk_views(chunks: Seq<AudioChunk>) -> Seq<crate::chunker::AudioFrameView> {
    chunks.map_values(
        |c: AudioChunk|
            crate::chunker::AudioFrameView {
                samples: c.pcm@,
                sample_rate: c.sample_rate,
                associated_text_idx: c.start_text_idx,
            },
    )
}

/// The frames as they are streamed: one chunk per frame, in order, with
/// the frame's samples, rate and text position.
pub fn frames_to_chunks(frames: Vec<AudioFrame>) -> (chunks: Vec<AudioChunk>)
    ensures
        chunk_views(chunks@) == crate::chunker::frame_views(frames@),
{
    let mut chunks: Vec<AudioChunk> = Vec::new();
    let ghost all = crate::chunker::frame_views(frames@);
    let mut rest = frames;
    let mut i: usize = 0;
    let total = rest.len();
    while i < total
        invariant
            i <= total,
            total == rest.len(),
            chunks@.len() == i,
            all.len() == total,
            forall|k: int| i <= k < total ==> (#[trigger] rest@[k])@ == all[k],
            forall|k: int| 0 <= k < i ==> (#[trigger] chunk_views(chunks@)[k]) == all[k],
        decreases total - i,
    {
        let frame = rest[i].clone_frame();
        let ghost before = chunks@;
        chunks.push(
            AudioChunk {
                pcm: frame.samples,
                sample_rate: frame.sample_rate,
                start_text_idx: frame.associated_text_idx,
            },
        );
        proof {
            assert forall|k: int| 0 <= k < i + 1 implies (#[trigger] chunk_views(chunks@)[k])
                == all[k] by {
                if k < i {
                    assert(chunks@[k] == before[k]);
                    assert(chunk_views(before)[k] == all[k]);
                }
            }
        }
        i = i + 1;
    }
    proof {
        assert(chunk_views(chunks@) =~= all);
    }
    chunks
}

/// A model that was loaded is served from the cache the next time it is
/// asked for with the same configuration: the lookup hits and hands out
/// the very engine that was installed, whatever was cached before.
pub proof fn lemma_installed_engine_is_reused(
    after_install: &EngineRegistryHandle,
    config: &PiperBackendConfig,
    again: &PiperBackendConfig,
    engine: SharedTts,
)
    requires
        after_install.cached_key() == Some(config_fingerprint(config)),
        after_install.cached_engine() == engine,
        again.model_path@ == config.model_path@,
        opt_chars(again.config_path) == opt_chars(config.config_path),
        opt_chars(again.speaker) == opt_chars(config.speaker),
    ensures
        after_install.hits(config_fingerprint(again)),
        after_install.cached_engine() == engine,
{
}

} // verus!
