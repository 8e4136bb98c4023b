use ebook_playback::chunker::{chunk_audio_samples, AudioFrame};
use ebook_playback::engine::{
    backend_model_path, current_state, fingerprint, frames_to_chunks, EngineBackend,
    EngineRegistryHandle, PiperBackendConfig, Resolution, SharedTts, StreamSink, TTSEngine,
};
use ebook_playback::speech::RegistryError;
use std::sync::atomic::{AtomicUsize, Ordering};
use std::sync::Arc;

struct Silence {
    samples: usize,
}

impl TTSEngine for Silence {
    fn synthesize(&self, text: &str) -> Result<Vec<AudioFrame>, String> {
        Ok(chunk_audio_samples(vec![0; self.samples], 16_000, text.len()))
    }
}

fn silence(samples: usize) -> SharedTts {
    let boxed: Box<dyn TTSEngine> = Box::new(Silence { samples });
    Arc::new(boxed)
}

fn config(model: &str, config_path: Option<&str>, speaker: Option<&str>) -> PiperBackendConfig {
    PiperBackendConfig {
        model_path: model.to_string(),
        config_path: config_path.map(|s| s.to_string()),
        speaker: speaker.map(|s| s.to_string()),
        sample_rate: None,
    }
}

/// Loads through the cache as a caller does, counting the loads.
fn load(
    handle: &mut EngineRegistryHandle,
    config: &PiperBackendConfig,
    loads: &AtomicUsize,
) -> Result<SharedTts, RegistryError> {
    match handle.cached_piper(config) {
        Some(engine) => Ok(engine),
        None => {
            loads.fetch_add(1, Ordering::SeqCst);
            handle.install_piper(config, Ok(silence(10)))
        }
    }
}

#[test]
fn fingerprints_join_the_load_configuration() {
    assert_eq!(fingerprint(&config("m.onnx", None, None)), "m.onnx::m.onnx::default");
    assert_eq!(fingerprint(&config("m.onnx", Some("c.json"), None)), "m.onnx::c.json::default");
    assert_eq!(fingerprint(&config("m.onnx", Some("c.json"), Some("amy"))), "m.onnx::c.json::amy");
    assert_eq!(fingerprint(&config("", None, Some(""))), "::::");
}

#[test]
fn the_same_configuration_reuses_the_loaded_engine() {
    let mut handle = EngineRegistryHandle::new(silence(1));
    let loads = AtomicUsize::new(0);
    let first = load(&mut handle, &config("m.onnx", None, Some("amy")), &loads).ok().unwrap();
    let second = load(&mut handle, &config("m.onnx", None, Some("amy")), &loads).ok().unwrap();
    assert_eq!(loads.load(Ordering::SeqCst), 1);
    assert!(Arc::ptr_eq(&first, &second));
    assert_eq!(handle.active_model(), Some("m.onnx".to_string()));
}

#[test]
fn another_configuration_replaces_the_cached_engine() {
    let mut handle = EngineRegistryHandle::new(silence(1));
    let loads = AtomicUsize::new(0);
    let first = load(&mut handle, &config("a.onnx", None, None), &loads).ok().unwrap();
    let second = load(&mut handle, &config("b.onnx", None, None), &loads).ok().unwrap();
    assert_eq!(loads.load(Ordering::SeqCst), 2);
    assert!(!Arc::ptr_eq(&first, &second));
    assert_eq!(handle.active_model(), Some("b.onnx".to_string()));
    // the first one is gone from the single slot
    let third = load(&mut handle, &config("a.onnx", None, None), &loads).ok().unwrap();
    assert_eq!(loads.load(Ordering::SeqCst), 3);
    assert!(!Arc::ptr_eq(&first, &third));
}

#[test]
fn a_failed_load_keeps_the_cache() {
    let mut handle = EngineRegistryHandle::new(silence(1));
    let kept = handle.install_piper(&config("a.onnx", None, None), Ok(silence(3))).ok().unwrap();
    match handle.install_piper(&config("b.onnx", None, None), Err("no such file".to_string())) {
        Err(RegistryError::LoadFailed(message)) => assert_eq!(message, "no such file"),
        _ => panic!("a failed load was expected"),
    }
    assert_eq!(handle.active_model(), Some("a.onnx".to_string()));
    let again = handle.cached_piper(&config("a.onnx", None, None)).unwrap();
    assert!(Arc::ptr_eq(&kept, &again));
    assert!(handle.cached_piper(&config("b.onnx", None, None)).is_none());
}

#[test]
fn the_mock_engine_is_handed_out_under_a_label() {
    let mock = silence(5);
    let mut handle = EngineRegistryHandle::new(mock.clone());
    assert_eq!(handle.active_model(), None);
    let engine = handle.mock_engine("demo");
    assert!(Arc::ptr_eq(&engine, &mock));
    assert_eq!(handle.active_model(), Some("demo".to_string()));
    let frames = engine.synthesize("hello").ok().unwrap();
    assert_eq!(frames.len(), 1);
    assert_eq!(frames[0].samples.len(), 5);
}

#[test]
fn backends_resolve_from_what_is_loaded() {
    let mock = silence(5);
    let mut handle = EngineRegistryHandle::new(mock.clone());
    let auto = EngineBackend::Auto { model_path: "auto-model".to_string() };
    match handle.resolve_engine(&auto, false) {
        Ok(Resolution::Ready(found)) => assert!(Arc::ptr_eq(&found, &mock)),
        _ => panic!("the mock engine was expected"),
    }
    assert_eq!(handle.active_model(), Some("auto-model".to_string()));

    let piper = EngineBackend::Piper(config("p.onnx", None, None));
    assert!(matches!(handle.resolve_engine(&piper, true), Ok(Resolution::Load)));
    assert_eq!(handle.active_model(), Some("auto-model".to_string()));
    let loaded = handle.install_piper(&config("p.onnx", None, None), Ok(silence(7))).ok().unwrap();
    match handle.resolve_engine(&piper, true) {
        Ok(Resolution::Ready(found)) => assert!(Arc::ptr_eq(&found, &loaded)),
        _ => panic!("the cached engine was expected"),
    }
    assert_eq!(handle.active_model(), Some("p.onnx".to_string()));
    assert_eq!(backend_model_path(&auto), "auto-model");
    assert_eq!(backend_model_path(&piper), "p.onnx");
}

#[test]
fn a_model_is_refused_where_its_engine_is_not_built() {
    let mut handle = EngineRegistryHandle::new(silence(5));
    let _ = handle.install_piper(&config("p.onnx", None, None), Ok(silence(7)));
    let _ = handle.mock_engine("demo");
    let piper = EngineBackend::Piper(config("p.onnx", None, None));
    assert!(matches!(handle.resolve_engine(&piper, false), Err(RegistryError::PiperUnavailable)));
    assert_eq!(handle.active_model(), Some("demo".to_string()));
    assert!(handle.cached_piper(&config("p.onnx", None, None)).is_some());
}

#[test]
fn the_state_names_the_active_model() {
    let state = current_state(None);
    assert!(!state.is_playing);
    assert_eq!(state.current_model, "unloaded");
    let mut handle = EngineRegistryHandle::new(silence(1));
    assert_eq!(current_state(Some(&handle)).current_model, "unloaded");
    let _ = handle.mock_engine("demo");
    let state = current_state(Some(&handle));
    assert!(!state.is_playing);
    assert_eq!(state.current_model, "demo");
}

#[test]
fn frames_are_streamed_as_chunks() {
    let samples: Vec<i16> = (0..7_000).map(|i| (i % 100) as i16).collect();
    let frames = chunk_audio_samples(samples.clone(), 16_000, 50);
    let chunks = frames_to_chunks(frames);
    assert_eq!(chunks.len(), 3);
    assert_eq!(chunks[0].pcm, samples[..3_200].to_vec());
    assert_eq!(chunks[2].pcm, samples[6_400..].to_vec());
    assert_eq!(chunks[1].sample_rate, 16_000);
    assert_eq!(chunks[1].start_text_idx, 23);
    assert_eq!(chunks[2].start_text_idx, 46);
}

#[test]
fn a_sink_takes_everything() {
    let sink: StreamSink<u32> = StreamSink::new();
    assert_eq!(sink.add(7), Ok(()));
    assert_eq!(sink.add_error("oops"), Ok(()));
    assert_eq!(sink.close(), Ok(()));
}
