use stylizer::error::StylizerError;
use stylizer::fixed::UNIT;
use stylizer::model_cache::{
    select_backend, validate_onnx_model, Backend, LoadReport, LoadState, LoadStep, ModelCache,
};
use stylizer::model_registry::{ModelInfo, ModelMeta, ModelRegistry};
use stylizer::profile::Profile;

fn style(name: &str, url: &str, size: u64) -> ModelInfo {
    ModelInfo {
        name: String::from(name),
        display_name: format!("Style {}", name),
        description: String::from("a style"),
        size_bytes: size,
        recommended_strength: 800_000,
        meta: ModelMeta {
            model_url: String::from(url),
            input_name: String::from("in"),
            output_name: String::from("out"),
            input_width: 8,
            input_height: 4,
            profile: Profile::signed_range(),
        },
    }
}

fn payload(len: usize) -> Vec<u8> {
    let mut bytes = vec![0u8; len];
    for (i, b) in b"ONNX".iter().enumerate() {
        if i < len {
            bytes[i] = *b;
        }
    }
    bytes
}

#[test]
fn empty_registry_has_no_styles() {
    let r = ModelRegistry::new();
    assert_eq!(r.get_model_count(), 0);
    assert_eq!(r.get_total_model_size(), 0);
    assert!(r.get_styles().is_empty());
    assert!(r.get_available_styles().is_empty());
    assert_eq!(r.find("van-gogh"), None);
    assert_eq!(r.get_model_info("van-gogh").err(), Some(StylizerError::StyleNotFound));
}

#[test]
fn default_registry_lists_five_styles_in_order() {
    let r = ModelRegistry::with_default_models();
    assert_eq!(r.get_model_count(), 5);
    assert_eq!(
        r.get_available_styles(),
        vec!["van-gogh", "picasso", "cyberpunk", "watercolor", "oil-painting"]
    );
    assert_eq!(r.get_total_model_size(), 37_500_000);
    let urls: Vec<&str> = r.get_styles().iter().map(|m| m.meta.model_url.as_str()).collect();
    assert_eq!(
        urls,
        vec![
            "/models/van_gogh_style_transfer.onnx",
            "/models/picasso_style_transfer.onnx",
            "/models/cyberpunk_style_transfer.onnx",
            "/models/watercolor_style_transfer.onnx",
            "/models/oil_painting_style_transfer.onnx",
        ]
    );
    let sizes: Vec<u64> = r.get_styles().iter().map(|m| m.size_bytes).collect();
    assert_eq!(sizes, vec![6_800_000, 7_200_000, 8_100_000, 5_900_000, 9_500_000]);
    for m in r.get_styles().iter() {
        assert_eq!((m.meta.input_width, m.meta.input_height), (256, 256));
        assert_eq!(m.meta.input_name, "input");
        assert_eq!(m.meta.output_name, "output");
        assert_eq!(m.recommended_strength, UNIT);
        assert_eq!(m.meta.profile.scale(), 1_000_000);
        assert_eq!(m.meta.profile.channel_mean(0), 0);
        assert_eq!(m.meta.profile.channel_std(2), 1_000_000);
    }
}

#[test]
fn gallery_registry_lists_five_styles_by_display_name() {
    let r = ModelRegistry::with_gallery_models();
    assert_eq!(
        r.get_available_styles(),
        vec![
            "Van Gogh - Starry Night",
            "Picasso - Cubist",
            "Japanese Ukiyo-e",
            "Cyberpunk Neon",
            "Abstract Expressionism",
        ]
    );
    assert_eq!(r.get_total_model_size(), 42_300_000);
    let ukiyo = r.get_model_info("Japanese Ukiyo-e").unwrap();
    assert_eq!(ukiyo.display_name, "Japanese Ukiyo-e");
    assert_eq!(ukiyo.description, "");
    assert_eq!(ukiyo.size_bytes, 7_800_000);
    assert_eq!(ukiyo.meta.model_url, "models/ukiyo_e.onnx");
    assert_eq!((ukiyo.meta.input_width, ukiyo.meta.input_height), (512, 512));
    assert_eq!(ukiyo.recommended_strength, UNIT);
    assert_eq!(r.get_model_info("picasso").err(), Some(StylizerError::StyleNotFound));
}

#[test]
fn describe_gives_the_whole_descriptor() {
    let r = ModelRegistry::with_default_models();
    let info = r.get_model_info("cyberpunk").unwrap();
    assert_eq!(info.name, "cyberpunk");
    assert_eq!(info.display_name, "Cyberpunk Neon Aesthetic");
    assert_eq!(info.description, "Futuristic cyberpunk aesthetic with neon colors and digital effects");
    assert_eq!(info.size_bytes, 8_100_000);
    assert_eq!(info.meta.model_url, "/models/cyberpunk_style_transfer.onnx");
    assert_eq!(r.find("cyberpunk"), Some(2));
    assert_eq!(r.style_at(2).name, "cyberpunk");
}

#[test]
fn describe_unknown_name_is_style_not_found() {
    let r = ModelRegistry::with_default_models();
    for name in ["", "van gogh", "Van-Gogh", "van-gogh ", "nonexistent-style", "picasso2"] {
        assert_eq!(r.get_model_info(name).err(), Some(StylizerError::StyleNotFound));
        assert_eq!(r.find(name), None);
    }
}

#[test]
fn from_models_keeps_registration_order() {
    let r = ModelRegistry::from_models(vec![style("b", "u1", 1), style("a", "u2", 2), style("c", "u3", 3)]);
    assert_eq!(r.get_available_styles(), vec!["b", "a", "c"]);
    assert_eq!(r.get_total_model_size(), 6);
    assert_eq!(r.get_model_info("a").unwrap().meta.model_url, "u2");
}

#[test]
fn from_models_replaces_a_repeated_name_in_place() {
    let r = ModelRegistry::from_models(vec![
        style("a", "old", 1),
        style("b", "u2", 2),
        style("a", "new", 10),
        style("c", "u3", 3),
        style("b", "newer", 20),
    ]);
    assert_eq!(r.get_available_styles(), vec!["a", "b", "c"]);
    assert_eq!(r.get_model_info("a").unwrap().meta.model_url, "new");
    assert_eq!(r.get_model_info("b").unwrap().meta.model_url, "newer");
    assert_eq!(r.get_total_model_size(), 33);
}

#[test]
fn total_size_saturates() {
    let r = ModelRegistry::from_models(vec![style("a", "u", u64::MAX - 1), style("b", "u", 5)]);
    assert_eq!(r.get_total_model_size(), u64::MAX);
}

#[test]
fn payload_validation_checks_length_then_magic() {
    assert!(validate_onnx_model(&payload(100)));
    assert!(validate_onnx_model(&payload(5000)));
    assert!(!validate_onnx_model(&payload(99)));
    assert!(!validate_onnx_model(&payload(4)));
    assert!(!validate_onnx_model(&[]));
    assert!(!validate_onnx_model(&vec![0u8; 1024]));
    let mut wrong = payload(200);
    wrong[3] = b'Y';
    assert!(!validate_onnx_model(&wrong));
    let mut lower = payload(200);
    lower[0] = b'o';
    assert!(!validate_onnx_model(&lower));
}

#[test]
fn backend_selection_falls_back_without_failing() {
    assert_eq!(select_backend(true, true), LoadReport { backend: Backend::Accelerated, notice: None });
    assert_eq!(
        select_backend(true, false),
        LoadReport { backend: Backend::Fallback, notice: Some(StylizerError::BackendUnavailable) }
    );
    assert_eq!(select_backend(false, true), LoadReport { backend: Backend::Fallback, notice: None });
    assert_eq!(select_backend(false, false), LoadReport { backend: Backend::Fallback, notice: None });
}

#[test]
fn new_cache_has_everything_unloaded() {
    let cache = ModelCache::new(ModelRegistry::with_default_models(), false);
    for name in ["van-gogh", "picasso", "cyberpunk", "watercolor", "oil-painting", "other"] {
        assert_eq!(cache.state_of(name), LoadState::Unloaded);
        assert!(!cache.is_loaded(name));
        assert!(cache.get(name).is_none());
    }
    assert_eq!(cache.registry().get_model_count(), 5);
}

#[test]
fn load_nonexistent_style_is_not_found_and_asks_no_fetch() {
    let mut cache = ModelCache::new(ModelRegistry::with_default_models(), false);
    assert!(matches!(cache.begin_load("nonexistent-style"), Err(StylizerError::StyleNotFound)));
    assert_eq!(cache.state_of("nonexistent-style"), LoadState::Unloaded);
    assert_eq!(
        cache.finish_load("nonexistent-style", Some(payload(200)), true),
        Err(StylizerError::StyleNotFound)
    );
    assert!(!cache.is_loaded("nonexistent-style"));
    for name in ["van-gogh", "picasso", "cyberpunk", "watercolor", "oil-painting"] {
        assert_eq!(cache.state_of(name), LoadState::Unloaded);
    }
}

#[test]
fn load_twice_fetches_once() {
    let mut cache = ModelCache::new(ModelRegistry::with_default_models(), true);
    let mut fetches = 0;
    for _ in 0..3 {
        match cache.begin_load("picasso").unwrap() {
            LoadStep::Ready => {}
            LoadStep::Fetch(url) => {
                assert_eq!(url, "/models/picasso_style_transfer.onnx");
                assert_eq!(cache.state_of("picasso"), LoadState::Loading);
                fetches += 1;
                let report = cache.finish_load("picasso", Some(payload(300)), true).unwrap();
                assert_eq!(report, LoadReport { backend: Backend::Accelerated, notice: None });
            }
        }
        assert!(cache.is_loaded("picasso"));
        assert_eq!(cache.state_of("picasso"), LoadState::Loaded);
    }
    assert_eq!(fetches, 1);
    let handle = cache.get("picasso").unwrap();
    assert_eq!(handle.name(), "picasso");
    assert_eq!(handle.payload(), &payload(300));
    assert_eq!(handle.backend(), Backend::Accelerated);
    assert!(!cache.is_loaded("van-gogh"));
}

#[test]
fn loaded_handle_is_never_replaced() {
    let mut cache = ModelCache::new(ModelRegistry::with_default_models(), true);
    assert!(matches!(cache.begin_load("watercolor"), Ok(LoadStep::Fetch(_))));
    assert_eq!(
        cache.finish_load("watercolor", Some(payload(150)), false),
        Ok(LoadReport { backend: Backend::Fallback, notice: Some(StylizerError::BackendUnavailable) })
    );
    assert_eq!(
        cache.finish_load("watercolor", Some(payload(999)), true),
        Ok(LoadReport { backend: Backend::Fallback, notice: None })
    );
    assert_eq!(cache.finish_load("watercolor", None, true), Ok(LoadReport { backend: Backend::Fallback, notice: None }));
    assert_eq!(cache.finish_load("watercolor", Some(vec![1, 2, 3]), true), Ok(LoadReport { backend: Backend::Fallback, notice: None }));
    let handle = cache.get("watercolor").unwrap();
    assert_eq!(handle.payload().len(), 150);
    assert_eq!(handle.backend(), Backend::Fallback);
}

#[test]
fn failed_fetch_leaves_style_unloaded_and_can_be_retried() {
    let mut cache = ModelCache::new(ModelRegistry::with_default_models(), false);
    assert!(matches!(cache.begin_load("van-gogh"), Ok(LoadStep::Fetch(_))));
    assert_eq!(cache.state_of("van-gogh"), LoadState::Loading);
    assert_eq!(cache.finish_load("van-gogh", None, false), Err(StylizerError::DownloadFailed));
    assert_eq!(cache.state_of("van-gogh"), LoadState::Unloaded);
    assert!(cache.get("van-gogh").is_none());
    assert!(matches!(cache.begin_load("van-gogh"), Ok(LoadStep::Fetch(_))));
    assert_eq!(
        cache.finish_load("van-gogh", Some(payload(100)), false),
        Ok(LoadReport { backend: Backend::Fallback, notice: None })
    );
    assert!(cache.is_loaded("van-gogh"));
}

#[test]
fn invalid_payload_is_not_cached() {
    let mut cache = ModelCache::new(ModelRegistry::with_default_models(), false);
    assert!(matches!(cache.begin_load("oil-painting"), Ok(LoadStep::Fetch(_))));
    assert_eq!(cache.finish_load("oil-painting", Some(payload(99)), true), Err(StylizerError::InvalidModelFormat));
    assert_eq!(cache.state_of("oil-painting"), LoadState::Unloaded);
    assert!(matches!(cache.begin_load("oil-painting"), Ok(LoadStep::Fetch(_))));
    assert_eq!(
        cache.finish_load("oil-painting", Some(vec![7u8; 4096]), true),
        Err(StylizerError::InvalidModelFormat)
    );
    assert!(!cache.is_loaded("oil-painting"));
    assert!(cache.get("oil-painting").is_none());
}

#[test]
fn loading_one_style_leaves_the_others() {
    let mut cache = ModelCache::new(ModelRegistry::with_default_models(), false);
    assert!(matches!(cache.begin_load("cyberpunk"), Ok(LoadStep::Fetch(_))));
    assert!(matches!(cache.begin_load("picasso"), Ok(LoadStep::Fetch(_))));
    assert!(cache.finish_load("cyberpunk", Some(payload(128)), false).is_ok());
    assert_eq!(cache.state_of("cyberpunk"), LoadState::Loaded);
    assert_eq!(cache.state_of("picasso"), LoadState::Loading);
    assert_eq!(cache.state_of("van-gogh"), LoadState::Unloaded);
}
