use mospeada::error::EngineError;
use mospeada::generation::Eos;
use mospeada::generation::GenerationConfig;
use mospeada::generation::Sampling;
use mospeada::ieee::PENALTY_ONE_BITS;

#[test]
fn load_generation_config() {
    let config = GenerationConfig::from_json_str(
        r#"{
            "bos_token_id": 151643,
            "do_sample": false,
            "eos_token_id": 151643,
            "max_new_tokens": 2048,
            "transformers_version": "4.43.1"
        }"#,
    )
    .unwrap();

    assert_eq!(config.get_eos_token_id(), Some(vec![151643]));
    assert_eq!(config.sampling(), Sampling::ArgMax);

    let config = GenerationConfig::from_json_str(
        r#"{
            "bos_token_id": 128000,
            "do_sample": true,
            "eos_token_id": [
              128001,
              128008,
              128009
            ],
            "temperature": 0.6,
            "top_p": 0.9,
            "transformers_version": "4.45.0.dev0"
          }"#,
    )
    .unwrap();

    assert_eq!(
        config.get_eos_token_id(),
        Some(vec![128001, 128008, 128009])
    );
}

#[test]
fn argmax_wins_when_temperature_is_absent_or_negligible() {
    // Absent temperature: top_k and top_p are ignored by design.
    let config =
        GenerationConfig::from_json_str(r#"{"top_k": 50, "top_p": 0.9}"#).unwrap();
    assert_eq!(config.sampling(), Sampling::ArgMax);

    // Below the 1e-7 threshold.
    let config =
        GenerationConfig::from_json_str(r#"{"temperature": 1e-8, "top_k": 50}"#).unwrap();
    assert_eq!(config.sampling(), Sampling::ArgMax);

    // Negative temperatures compare below the threshold too.
    let config = GenerationConfig::from_json_str(r#"{"temperature": -0.5}"#).unwrap();
    assert_eq!(config.sampling(), Sampling::ArgMax);

    // Zero exactly.
    let config = GenerationConfig::from_json_str(r#"{"temperature": 0.0}"#).unwrap();
    assert_eq!(config.sampling(), Sampling::ArgMax);
}

#[test]
fn usable_temperature_selects_the_filter_variants() {
    let t = 0.6f64.to_bits();
    let p = 0.9f64.to_bits();

    let config = GenerationConfig::from_json_str(r#"{"temperature": 0.6}"#).unwrap();
    assert_eq!(config.sampling(), Sampling::All { temperature: t });

    let config =
        GenerationConfig::from_json_str(r#"{"temperature": 0.6, "top_k": 5}"#).unwrap();
    assert_eq!(config.sampling(), Sampling::TopK { k: 5, temperature: t });

    let config =
        GenerationConfig::from_json_str(r#"{"temperature": 0.6, "top_p": 0.9}"#).unwrap();
    assert_eq!(config.sampling(), Sampling::TopP { p, temperature: t });

    let config = GenerationConfig::from_json_str(
        r#"{"temperature": 0.6, "top_k": 5, "top_p": 0.9}"#,
    )
    .unwrap();
    assert_eq!(
        config.sampling(),
        Sampling::TopKThenTopP { k: 5, p, temperature: t }
    );
}

#[test]
fn parsed_fields_round_through_bit_patterns() {
    let config = GenerationConfig::from_json_str(
        r#"{"eos_token_id": [7, 9], "temperature": 0.25, "repetition_penalty": 1.1,
            "top_p": 0.5, "top_k": 3, "max_new_tokens": 64}"#,
    )
    .unwrap();

    assert_eq!(config.temperature, Some(0.25f64.to_bits()));
    assert_eq!(config.repetition_penalty, Some(1.1f32.to_bits()));
    assert_eq!(config.top_p, Some(0.5f64.to_bits()));
    assert_eq!(config.top_k, Some(3));
    assert_eq!(config.max_new_tokens, Some(64));
    assert_eq!(config.get_eos_token_id(), Some(vec![7, 9]));
}

#[test]
fn defaults_apply_when_fields_are_absent() {
    let config = GenerationConfig::from_json_str("{}").unwrap();
    assert_eq!(config.get_eos_token_id(), None);
    assert_eq!(config.get_repetition_penalty_or(PENALTY_ONE_BITS), PENALTY_ONE_BITS);
    assert_eq!(PENALTY_ONE_BITS, 1.0f32.to_bits());
    assert_eq!(config.get_max_new_tokens_or(123), 123);
}

#[test]
fn setters_replace_single_fields() {
    let mut config = GenerationConfig::from_json_str("{}").unwrap();
    config.set_eos_token_id(Eos::Single(5));
    config.set_temperature(0.7f64.to_bits());
    config.set_repetition_penalty(1.2f32.to_bits());
    config.set_top_p(0.8f64.to_bits());
    config.set_top_k(11);

    assert_eq!(config.get_eos_token_id(), Some(vec![5]));
    assert_eq!(config.temperature, Some(0.7f64.to_bits()));
    assert_eq!(config.get_repetition_penalty_or(PENALTY_ONE_BITS), 1.2f32.to_bits());
    assert_eq!(config.top_p, Some(0.8f64.to_bits()));
    assert_eq!(config.top_k, Some(11));
}

#[test]
fn negligibility_agrees_with_the_numeric_comparison() {
    let sweep = [
        0.0f64,
        -0.0,
        1e-300,
        -1e-300,
        1e-7,
        9.9e-8,
        1.0,
        -1.0,
        0.6,
        f64::INFINITY,
        f64::NEG_INFINITY,
        f64::NAN,
        f64::MIN_POSITIVE,
        f64::MAX,
    ];
    for x in sweep {
        assert_eq!(
            mospeada::ieee::temperature_is_negligible(x.to_bits()),
            x < 1e-7,
            "bit-level reading disagrees at {x}"
        );
    }
    assert_eq!(mospeada::ieee::TINY_TEMPERATURE_BITS, 1e-7f64.to_bits());
}

#[test]
fn unusable_fields_are_rejected() {
    let err = GenerationConfig::from_json_str(r#"{"eos_token_id": "stop"}"#).unwrap_err();
    assert!(matches!(err, EngineError::Msg(_)));

    let err =
        GenerationConfig::from_json_str(r#"{"eos_token_id": [1, "x"]}"#).unwrap_err();
    assert!(matches!(err, EngineError::Msg(_)));

    let err =
        GenerationConfig::from_json_str(r#"{"eos_token_id": 4294967296}"#).unwrap_err();
    assert!(matches!(err, EngineError::Msg(_)));

    let err = GenerationConfig::from_json_str(r#"{"temperature": "hot"}"#).unwrap_err();
    assert!(matches!(err, EngineError::Msg(_)));

    let err = GenerationConfig::from_json_str(r#"{"top_k": -3}"#).unwrap_err();
    assert!(matches!(err, EngineError::Msg(_)));

    let err = GenerationConfig::from_json_str("{ broken").unwrap_err();
    assert!(matches!(err, EngineError::Json(_)));

    // A well-formed document that is not an object is not a configuration.
    let err = GenerationConfig::from_json_str("3").unwrap_err();
    assert!(matches!(err, EngineError::Msg(_)));
}
