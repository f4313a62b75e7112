use stylizer::error::StylizerError;
use stylizer::fixed::UNIT;
use stylizer::model_cache::{Backend, LoadState, ModelCache};
use stylizer::model_registry::{ModelInfo, ModelMeta, ModelRegistry};
use stylizer::profile::Profile;
use stylizer::style_transfer::{
    PipelineAction, PipelineEvent, PipelineRequest, PipelineState, StyleTransferEngine,
};

fn style_a(width: u32, height: u32, profile: Profile) -> ModelInfo {
    ModelInfo {
        name: String::from("A"),
        display_name: String::from("Style A"),
        description: String::from("the first style"),
        size_bytes: 1000,
        recommended_strength: UNIT,
        meta: ModelMeta {
            model_url: String::from("models/a.onnx"),
            input_name: String::from("input"),
            output_name: String::from("output"),
            input_width: width,
            input_height: height,
            profile,
        },
    }
}

fn payload() -> Vec<u8> {
    let mut bytes = vec![0u8; 256];
    bytes[..4].copy_from_slice(b"ONNX");
    bytes
}

fn gray(width: u32, height: u32, value: u8) -> Vec<u8> {
    (0..width * height).flat_map(|_| [value, value, value, 255]).collect()
}

fn request(image: Vec<u8>, width: u32, height: u32, style: &str, strength: i64) -> PipelineRequest {
    PipelineRequest { image, width, height, style: String::from(style), strength }
}

fn scenario_cache() -> ModelCache {
    let profile = Profile::new([0, 0, 0], [1_000_000, 1_000_000, 1_000_000], 255_000_000).unwrap();
    ModelCache::new(ModelRegistry::from_models(vec![style_a(256, 256, profile)]), false)
}

#[test]
fn mid_gray_image_passes_through_an_identity_model() {
    let mut cache = scenario_cache();
    let mut engine = StyleTransferEngine::new(request(gray(64, 64, 128), 64, 64, "A", UNIT));
    assert_eq!(engine.state(), PipelineState::Idle);
    assert_eq!(engine.progress(), 0);

    let action = engine.step(&mut cache, PipelineEvent::Start);
    let url = match action {
        PipelineAction::Fetch { url } => url,
        other => panic!("expected a fetch, got {:?}", other),
    };
    assert_eq!(url, "models/a.onnx");
    assert_eq!(engine.state(), PipelineState::Preparing);
    assert_eq!(cache.state_of("A"), LoadState::Loading);

    let action = engine.step(
        &mut cache,
        PipelineEvent::ModelFetched { payload: Some(payload()), accelerator_available: false },
    );
    let (input, input_name, output_name) = match action {
        PipelineAction::Infer { input, input_name, output_name } => (input, input_name, output_name),
        other => panic!("expected inference, got {:?}", other),
    };
    assert_eq!(engine.state(), PipelineState::Invoking);
    assert_eq!(engine.progress(), 30);
    assert!(cache.is_loaded("A"));
    assert_eq!(cache.get("A").unwrap().backend(), Backend::Fallback);
    assert_eq!(input_name, "input");
    assert_eq!(output_name, "output");
    assert_eq!(input.len(), 3 * 256 * 256);
    assert!(input.iter().all(|&v| v == 128_000_000 * 255_000_000));

    let action = engine.step(&mut cache, PipelineEvent::InferenceOutput(input));
    assert!(matches!(action, PipelineAction::Postprocess));
    assert_eq!(engine.state(), PipelineState::Postprocessing);
    assert_eq!(engine.progress(), 70);

    let action = engine.step(&mut cache, PipelineEvent::Continue);
    let image = match action {
        PipelineAction::Deliver { image } => image,
        other => panic!("expected an image, got {:?}", other),
    };
    assert_eq!(engine.state(), PipelineState::Done);
    assert_eq!(engine.progress(), 100);
    assert_eq!(image.len(), 64 * 64 * 4);
    assert!(image.chunks(4).all(|p| p == [128, 128, 128, 255]));
}

#[test]
fn loaded_model_is_not_fetched_again() {
    let mut cache = scenario_cache();
    let mut first = StyleTransferEngine::new(request(gray(2, 2, 10), 2, 2, "A", UNIT));
    assert!(matches!(first.step(&mut cache, PipelineEvent::Start), PipelineAction::Fetch { .. }));
    assert!(matches!(
        first.step(&mut cache, PipelineEvent::ModelFetched { payload: Some(payload()), accelerator_available: true }),
        PipelineAction::Infer { .. }
    ));
    let mut second = StyleTransferEngine::new(request(gray(2, 2, 10), 2, 2, "A", UNIT));
    assert!(matches!(second.step(&mut cache, PipelineEvent::Start), PipelineAction::Infer { .. }));
    assert_eq!(second.state(), PipelineState::Invoking);
    assert_eq!(second.progress(), 30);
}

#[test]
fn unknown_style_fails_at_start_without_a_fetch() {
    let mut cache = scenario_cache();
    let mut engine = StyleTransferEngine::new(request(gray(2, 2, 10), 2, 2, "nonexistent-style", UNIT));
    let action = engine.step(&mut cache, PipelineEvent::Start);
    assert!(matches!(action, PipelineAction::Abort(StylizerError::StyleNotFound)));
    assert_eq!(engine.state(), PipelineState::Failed(StylizerError::StyleNotFound));
    assert_eq!(engine.progress(), 0);
    assert_eq!(cache.state_of("A"), LoadState::Unloaded);
}

#[test]
fn failed_download_fails_the_request() {
    let mut cache = scenario_cache();
    let mut engine = StyleTransferEngine::new(request(gray(2, 2, 10), 2, 2, "A", UNIT));
    engine.step(&mut cache, PipelineEvent::Start);
    let action = engine.step(&mut cache, PipelineEvent::ModelFetched { payload: None, accelerator_available: true });
    assert!(matches!(action, PipelineAction::Abort(StylizerError::DownloadFailed)));
    assert_eq!(engine.state(), PipelineState::Failed(StylizerError::DownloadFailed));
    assert_eq!(cache.state_of("A"), LoadState::Unloaded);
}

#[test]
fn invalid_payload_fails_the_request() {
    let mut cache = scenario_cache();
    let mut engine = StyleTransferEngine::new(request(gray(2, 2, 10), 2, 2, "A", UNIT));
    engine.step(&mut cache, PipelineEvent::Start);
    let action = engine.step(
        &mut cache,
        PipelineEvent::ModelFetched { payload: Some(vec![1u8; 500]), accelerator_available: true },
    );
    assert!(matches!(action, PipelineAction::Abort(StylizerError::InvalidModelFormat)));
    assert_eq!(engine.state(), PipelineState::Failed(StylizerError::InvalidModelFormat));
    assert!(!cache.is_loaded("A"));
}

#[test]
fn malformed_image_fails_with_invalid_dimensions() {
    for (image, w, h) in [(vec![0u8; 15], 2u32, 2u32), (vec![], 0, 2), (vec![], 2, 0), (vec![0u8; 16], 2, 3)] {
        let mut cache = scenario_cache();
        let mut engine = StyleTransferEngine::new(request(image, w, h, "A", UNIT));
        engine.step(&mut cache, PipelineEvent::Start);
        let action = engine.step(
            &mut cache,
            PipelineEvent::ModelFetched { payload: Some(payload()), accelerator_available: true },
        );
        assert!(matches!(action, PipelineAction::Abort(StylizerError::InvalidDimensions)));
        assert_eq!(engine.state(), PipelineState::Failed(StylizerError::InvalidDimensions));
        assert!(cache.is_loaded("A"));
    }
}

fn engine_at_invoking(cache: &mut ModelCache, strength: i64) -> (StyleTransferEngine, Vec<i128>) {
    let mut engine = StyleTransferEngine::new(request(gray(2, 2, 40), 2, 2, "A", strength));
    let action = match engine.step(cache, PipelineEvent::Start) {
        PipelineAction::Fetch { .. } => engine.step(
            cache,
            PipelineEvent::ModelFetched { payload: Some(payload()), accelerator_available: true },
        ),
        other => other,
    };
    match action {
        PipelineAction::Infer { input, .. } => (engine, input),
        other => panic!("expected inference, got {:?}", other),
    }
}

/// The tensor value of a whole number, in the steps of a channel with
/// deviation 1.
fn byte_steps(value: i128) -> i128 {
    value * 1_000_000 * 255_000_000
}

fn small_cache() -> ModelCache {
    ModelCache::new(ModelRegistry::from_models(vec![style_a(1, 1, Profile::byte_range())]), true)
}

#[test]
fn missing_output_and_backend_error_fail_the_request() {
    let mut cache = small_cache();
    let (mut engine, _) = engine_at_invoking(&mut cache, UNIT);
    assert!(matches!(
        engine.step(&mut cache, PipelineEvent::OutputMissing),
        PipelineAction::Abort(StylizerError::OutputMissing)
    ));
    assert_eq!(engine.state(), PipelineState::Failed(StylizerError::OutputMissing));
    assert_eq!(engine.progress(), 30);

    let (mut engine, _) = engine_at_invoking(&mut cache, UNIT);
    assert!(matches!(
        engine.step(&mut cache, PipelineEvent::InferenceFailed),
        PipelineAction::Abort(StylizerError::InferenceFailed)
    ));
    assert_eq!(engine.state(), PipelineState::Failed(StylizerError::InferenceFailed));
}

#[test]
fn output_of_wrong_size_fails_with_invalid_dimensions() {
    let mut cache = small_cache();
    let (mut engine, _) = engine_at_invoking(&mut cache, UNIT);
    assert!(matches!(engine.step(&mut cache, PipelineEvent::InferenceOutput(vec![0; 4])), PipelineAction::Postprocess));
    assert!(matches!(
        engine.step(&mut cache, PipelineEvent::Continue),
        PipelineAction::Abort(StylizerError::InvalidDimensions)
    ));
    assert_eq!(engine.state(), PipelineState::Failed(StylizerError::InvalidDimensions));
    assert_eq!(engine.progress(), 70);
}

#[test]
fn output_is_blended_over_the_original_at_the_requested_strength() {
    let mut cache = small_cache();
    let (mut engine, input) = engine_at_invoking(&mut cache, 250_000);
    assert_eq!(input, vec![byte_steps(40), byte_steps(40), byte_steps(40)]);
    engine.step(&mut cache, PipelineEvent::InferenceOutput(vec![byte_steps(240), byte_steps(40), 0]));
    match engine.step(&mut cache, PipelineEvent::Continue) {
        PipelineAction::Deliver { image } => {
            assert_eq!(image, [90u8, 40, 30, 255].repeat(4));
        }
        other => panic!("expected an image, got {:?}", other),
    }

    let (mut engine, _) = engine_at_invoking(&mut cache, 0);
    engine.step(&mut cache, PipelineEvent::InferenceOutput(vec![byte_steps(240), byte_steps(40), 0]));
    match engine.step(&mut cache, PipelineEvent::Continue) {
        PipelineAction::Deliver { image } => assert_eq!(image, gray(2, 2, 40)),
        other => panic!("expected an image, got {:?}", other),
    }
}

#[test]
fn unexpected_events_change_nothing() {
    let mut cache = small_cache();
    let mut engine = StyleTransferEngine::new(request(gray(2, 2, 40), 2, 2, "A", UNIT));
    assert!(matches!(engine.step(&mut cache, PipelineEvent::Continue), PipelineAction::Ignore));
    assert!(matches!(engine.step(&mut cache, PipelineEvent::InferenceOutput(vec![1, 2, 3])), PipelineAction::Ignore));
    assert!(matches!(
        engine.step(&mut cache, PipelineEvent::ModelFetched { payload: Some(payload()), accelerator_available: true }),
        PipelineAction::Ignore
    ));
    assert_eq!(engine.state(), PipelineState::Idle);
    assert_eq!(cache.state_of("A"), LoadState::Unloaded);

    let (mut engine, _) = engine_at_invoking(&mut cache, UNIT);
    assert!(matches!(engine.step(&mut cache, PipelineEvent::Start), PipelineAction::Ignore));
    assert!(matches!(engine.step(&mut cache, PipelineEvent::Continue), PipelineAction::Ignore));
    assert_eq!(engine.state(), PipelineState::Invoking);
}

#[test]
fn done_and_failed_are_final() {
    let mut cache = small_cache();
    let (mut engine, input) = engine_at_invoking(&mut cache, UNIT);
    engine.step(&mut cache, PipelineEvent::InferenceOutput(input));
    assert!(matches!(engine.step(&mut cache, PipelineEvent::Continue), PipelineAction::Deliver { .. }));
    for _ in 0..2 {
        assert!(matches!(engine.step(&mut cache, PipelineEvent::Start), PipelineAction::Ignore));
        assert!(matches!(engine.step(&mut cache, PipelineEvent::Continue), PipelineAction::Ignore));
        assert!(matches!(engine.step(&mut cache, PipelineEvent::OutputMissing), PipelineAction::Ignore));
        assert_eq!(engine.state(), PipelineState::Done);
        assert_eq!(engine.progress(), 100);
    }

    let (mut engine, _) = engine_at_invoking(&mut cache, UNIT);
    engine.step(&mut cache, PipelineEvent::InferenceFailed);
    assert!(matches!(engine.step(&mut cache, PipelineEvent::Start), PipelineAction::Ignore));
    assert!(matches!(engine.step(&mut cache, PipelineEvent::InferenceOutput(vec![0; 3])), PipelineAction::Ignore));
    assert_eq!(engine.state(), PipelineState::Failed(StylizerError::InferenceFailed));
}

#[test]
fn progress_never_goes_back() {
    let mut cache = scenario_cache();
    let mut engine = StyleTransferEngine::new(request(gray(3, 2, 200), 3, 2, "A", 600_000));
    let mut seen = vec![engine.progress()];
    engine.step(&mut cache, PipelineEvent::Start);
    seen.push(engine.progress());
    let input = match engine.step(
        &mut cache,
        PipelineEvent::ModelFetched { payload: Some(payload()), accelerator_available: false },
    ) {
        PipelineAction::Infer { input, .. } => input,
        other => panic!("expected inference, got {:?}", other),
    };
    seen.push(engine.progress());
    engine.step(&mut cache, PipelineEvent::InferenceOutput(input));
    seen.push(engine.progress());
    engine.step(&mut cache, PipelineEvent::Continue);
    seen.push(engine.progress());
    assert_eq!(seen, vec![0, 0, 30, 70, 100]);
}

#[test]
fn request_is_kept_as_given() {
    let engine = StyleTransferEngine::new(request(vec![1, 2, 3, 4], 1, 1, "A", -7));
    let r = engine.request();
    assert_eq!(r.image, vec![1, 2, 3, 4]);
    assert_eq!((r.width, r.height), (1, 1));
    assert_eq!(r.style, "A");
    assert_eq!(r.strength, -7);
}

#[test]
fn unavailable_accelerator_is_noted_and_the_request_goes_on() {
    let mut cache = small_cache();
    let mut engine = StyleTransferEngine::new(request(gray(2, 2, 40), 2, 2, "A", UNIT));
    assert_eq!(engine.notice(), None);
    engine.step(&mut cache, PipelineEvent::Start);
    let action = engine.step(
        &mut cache,
        PipelineEvent::ModelFetched { payload: Some(payload()), accelerator_available: false },
    );
    assert!(matches!(action, PipelineAction::Infer { .. }));
    assert_eq!(engine.state(), PipelineState::Invoking);
    assert_eq!(engine.notice(), Some(StylizerError::BackendUnavailable));
    assert_eq!(cache.get("A").unwrap().backend(), Backend::Fallback);

    let mut cache = small_cache();
    let mut engine = StyleTransferEngine::new(request(gray(2, 2, 40), 2, 2, "A", UNIT));
    engine.step(&mut cache, PipelineEvent::Start);
    engine.step(&mut cache, PipelineEvent::ModelFetched { payload: Some(payload()), accelerator_available: true });
    assert_eq!(engine.notice(), None);
    assert_eq!(cache.get("A").unwrap().backend(), Backend::Accelerated);
}
