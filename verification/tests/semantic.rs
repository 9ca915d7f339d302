use ctxpack::semantic::{
    embed_route, empty_to_default, local_fastembed_model_dimensions, normalized_provider,
    semantic_document_id, EmbeddingRoute, SemanticDocumentOptions, SemanticOptions,
    SemanticProviderConfig, DEFAULT_SEMANTIC_MODEL, DEFAULT_SEMANTIC_PROVIDER,
    LOCAL_FASTEMBED_DIMENSIONS, LOCAL_FASTEMBED_MODEL, LOCAL_FASTEMBED_PROVIDER,
    LOCAL_FASTEMBED_PROVIDER_ROLE, LOCAL_HASH_PROVIDER_ROLE, WEIGHT_DOC_BITS,
    WEIGHT_EXPORTED_BITS, WEIGHT_METADATA_BITS, WEIGHT_SYMBOL_BITS,
};

#[test]
fn local_fastembed_provider_resolves_model_dimensions_and_role() {
    let provider = normalized_provider(&SemanticProviderConfig {
        provider: LOCAL_FASTEMBED_PROVIDER.to_string(),
        model: "AllMiniLML6V2Q".to_string(),
        ..SemanticProviderConfig::default()
    });

    assert_eq!(provider.provider, LOCAL_FASTEMBED_PROVIDER);
    assert_eq!(provider.model, "AllMiniLML6V2Q");
    assert_eq!(provider.dimensions, 384);
    assert_eq!(provider.provider_role, LOCAL_FASTEMBED_PROVIDER_ROLE);
    assert!(provider.quality_backend);
    assert!(provider.local_only);
}

#[test]
fn default_provider_is_local_hashing() {
    let provider = normalized_provider(&SemanticProviderConfig::default());
    assert_eq!(provider.provider, DEFAULT_SEMANTIC_PROVIDER);
    assert_eq!(provider.model, DEFAULT_SEMANTIC_MODEL);
    assert_eq!(provider.dimensions, 64);
    assert_eq!(provider.provider_role, LOCAL_HASH_PROVIDER_ROLE);
    assert!(!provider.quality_backend);
    assert!(provider.available);
    let options = SemanticOptions::default();
    assert_eq!(options.limit, 10);
    assert!(!options.enabled);
    assert_eq!(SemanticDocumentOptions::default().limit, 500);
}

#[test]
fn fastembed_blank_model_takes_default_model_and_dimensions() {
    let provider = normalized_provider(&SemanticProviderConfig {
        provider: "  local_fastembed ".to_string(),
        model: "   ".to_string(),
        ..SemanticProviderConfig::default()
    });
    assert_eq!(provider.provider, LOCAL_FASTEMBED_PROVIDER);
    assert_eq!(provider.model, LOCAL_FASTEMBED_MODEL);
    assert_eq!(provider.dimensions, LOCAL_FASTEMBED_DIMENSIONS);
    assert!(!provider.available);
}

#[test]
fn dimensions_are_clamped_and_unknown_providers_unsupported() {
    let small = normalized_provider(&SemanticProviderConfig {
        dimensions: 2,
        ..SemanticProviderConfig::default()
    });
    assert_eq!(small.dimensions, 8);
    let large = normalized_provider(&SemanticProviderConfig {
        dimensions: 100_000,
        ..SemanticProviderConfig::default()
    });
    assert_eq!(large.dimensions, 4096);
    let remote = normalized_provider(&SemanticProviderConfig {
        provider: "openai".to_string(),
        ..SemanticProviderConfig::default()
    });
    assert_eq!(remote.provider, "openai");
    assert_eq!(remote.provider_role, "unsupported");
    assert!(!remote.available);
    match embed_route(&remote) {
        EmbeddingRoute::Unavailable(message) => assert_eq!(
            message,
            "Semantic provider openai is unsupported by this ctxpack build; no cloud provider was used."
        ),
        EmbeddingRoute::LocalHash(_) => panic!("remote providers do not embed"),
    }
    assert_eq!(
        embed_route(&SemanticProviderConfig::default()),
        EmbeddingRoute::LocalHash(64)
    );
}

#[test]
fn model_dimensions_follow_the_model_family() {
    assert_eq!(local_fastembed_model_dimensions("AllMiniLML12V2"), 384);
    assert_eq!(local_fastembed_model_dimensions("JinaEmbeddingsV2BaseCode"), 768);
    assert_eq!(empty_to_default("  ", "x"), "x");
    assert_eq!(empty_to_default(" y ", "x"), "y");
}

#[test]
fn facet_weights_are_the_documented_floats() {
    assert_eq!(f32::from_bits(WEIGHT_METADATA_BITS), 0.4_f32);
    assert_eq!(f32::from_bits(WEIGHT_SYMBOL_BITS), 0.8_f32);
    assert_eq!(f32::from_bits(WEIGHT_EXPORTED_BITS), 1.0_f32);
    assert_eq!(f32::from_bits(WEIGHT_DOC_BITS), 0.7_f32);
}

#[test]
fn document_ids_digest_path_and_hash() {
    let id = semantic_document_id("src/a.ts", "abc");
    let expected = format!("sem_doc_{}", blake3::hash(b"src/a.ts:abc").to_hex());
    assert_eq!(id, expected);
    assert_ne!(
        semantic_document_id("src/a.ts", "abd"),
        semantic_document_id("src/a.ts", "abc")
    );
}

#[test]
fn normalizing_a_normalized_provider_changes_nothing() {
    let once = normalized_provider(&SemanticProviderConfig {
        provider: "  local_fastembed ".to_string(),
        model: "AllMiniLML12V2".to_string(),
        dimensions: 64,
        distance_metric: " ".to_string(),
        ..SemanticProviderConfig::default()
    });
    let twice = normalized_provider(&once);
    assert_eq!(twice.provider, once.provider);
    assert_eq!(twice.model, once.model);
    assert_eq!(twice.dimensions, once.dimensions);
    assert_eq!(once.dimensions, 384);
    assert_eq!(twice.distance_metric, "cosine");
    assert_eq!(twice.provider_role, once.provider_role);
}
