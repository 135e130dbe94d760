use candle_core::Device;
use candle_core::Tensor;
use mospeada::error::EngineError;
use mospeada::generation::Eos;
use mospeada::generation::GenerationConfig;
use mospeada::generation::TextGeneration;
use mospeada::Module;

/// A model that makes the sampler pick a planned token at every step: the
/// planned token's score is the single maximum.
struct StubModel {
    plan: Vec<u32>,
    step: usize,
    vocab_size: usize,
    resets: usize,
}

impl StubModel {
    fn new(plan: Vec<u32>, vocab_size: usize) -> StubModel {
        StubModel { plan, step: 0, vocab_size, resets: 0 }
    }
}

impl Module for StubModel {
    fn forward(
        &mut self,
        _x: &Tensor,
        _start_pos: usize,
    ) -> Result<Tensor, candle_core::Error> {
        let winner = self.plan[self.step.min(self.plan.len() - 1)];
        self.step += 1;
        let mut scores = vec![0.0f32; self.vocab_size];
        scores[winner as usize] = 10.0;
        Tensor::from_vec(scores, (1, 1, self.vocab_size), &Device::Cpu)
    }

    fn reset(&mut self) {
        self.resets += 1;
        self.step = 0;
    }
}

fn config(eos: Vec<u32>, max_new_tokens: usize) -> GenerationConfig {
    GenerationConfig {
        eos_token_id: Some(Eos::Multi(eos)),
        temperature: None,
        repetition_penalty: None,
        top_p: None,
        top_k: None,
        max_new_tokens: Some(max_new_tokens),
    }
}

#[test]
fn five_steps_end_in_eos_with_the_right_count() {
    let model = StubModel::new(vec![7, 7, 7, 7, 100], 128);
    let cfg = config(vec![100], 5);
    let mut generation = TextGeneration::new(model, Device::Cpu, &cfg, 0, 64);

    let mut tokens = vec![generation.apply(&[1, 2, 3], 5).unwrap()];
    for _ in 0..3 {
        tokens.push(generation.next().unwrap());
    }
    assert_eq!(tokens, vec![7, 7, 7, 7]);

    match generation.next() {
        Err(EngineError::Eos { eos_token_id, generated }) => {
            assert_eq!(eos_token_id, 100);
            assert_eq!(generated, 5);
        }
        other => panic!("expected the end-of-sequence signal, got {other:?}"),
    }
}

#[test]
fn budget_is_enforced_exactly() {
    let model = StubModel::new(vec![7], 16);
    let cfg = config(vec![15], 2);
    let mut generation = TextGeneration::new(model, Device::Cpu, &cfg, 0, 64);

    assert_eq!(generation.apply(&[1], 2).unwrap(), 7);
    assert_eq!(generation.next().unwrap(), 7);

    // The third step is one past the budget: it fails and changes nothing,
    // and so does every later step.
    for _ in 0..2 {
        match generation.next() {
            Err(EngineError::MaxNewTokenExceeded { max_new_tokens }) => {
                assert_eq!(max_new_tokens, 2);
            }
            other => panic!("expected the budget signal, got {other:?}"),
        }
    }
}

#[test]
fn zero_budget_fails_on_the_first_step() {
    let model = StubModel::new(vec![7], 16);
    let cfg = config(vec![15], 0);
    let mut generation = TextGeneration::new(model, Device::Cpu, &cfg, 0, 64);

    match generation.apply(&[1, 2], 0) {
        Err(EngineError::MaxNewTokenExceeded { max_new_tokens }) => {
            assert_eq!(max_new_tokens, 0);
        }
        other => panic!("expected the budget signal, got {other:?}"),
    }
}

#[test]
fn apply_resets_the_model_and_restarts_the_count() {
    let model = StubModel::new(vec![3, 4, 5], 16);
    let cfg = config(vec![15], 8);
    let mut generation = TextGeneration::new(model, Device::Cpu, &cfg, 0, 64);

    assert_eq!(generation.apply(&[1], 8).unwrap(), 3);
    assert_eq!(generation.next().unwrap(), 4);

    // A second apply starts the plan over: the stub's cache was cleared.
    assert_eq!(generation.apply(&[1, 2], 8).unwrap(), 3);
    assert_eq!(generation.next().unwrap(), 4);
    assert_eq!(generation.next().unwrap(), 5);
}

/// A model whose forward pass always fails.
struct FailingModel;

impl Module for FailingModel {
    fn forward(
        &mut self,
        _x: &Tensor,
        _start_pos: usize,
    ) -> Result<Tensor, candle_core::Error> {
        Err(candle_core::Error::Msg("the forward pass broke".to_string()))
    }

    fn reset(&mut self) {}
}

#[test]
fn a_model_failure_is_fatal_and_carried_through() {
    let cfg = config(vec![15], 4);
    let mut generation = TextGeneration::new(FailingModel, Device::Cpu, &cfg, 0, 64);
    let err = generation.apply(&[1, 2], 4).unwrap_err();
    assert!(matches!(err, EngineError::Candle(_)));
}

#[test]
fn penalty_of_one_hands_scores_through_bit_for_bit() {
    let model = StubModel::new(vec![2], 8);
    let mut cfg = config(vec![7], 4);
    cfg.repetition_penalty = Some(1.0f32.to_bits());
    let generation = TextGeneration::new(model, Device::Cpu, &cfg, 0, 64);

    let raw = vec![1.5f32, -2.25, 3.125, 0.0, -0.0, f32::MIN_POSITIVE, 7.75, -8.5];
    let logits = Tensor::from_vec(raw.clone(), 8, &Device::Cpu).unwrap();
    let out = generation.penalize_scores(logits).unwrap();

    let out_bits: Vec<u32> = out
        .to_vec1::<f32>()
        .unwrap()
        .into_iter()
        .map(f32::to_bits)
        .collect();
    let raw_bits: Vec<u32> = raw.into_iter().map(f32::to_bits).collect();
    assert_eq!(out_bits, raw_bits);
}

#[test]
fn penalty_rescales_the_recent_tokens() {
    let model = StubModel::new(vec![2], 8);
    let mut cfg = config(vec![7], 4);
    cfg.repetition_penalty = Some(2.0f32.to_bits());
    let mut generation = TextGeneration::new(model, Device::Cpu, &cfg, 0, 64);

    // One step puts tokens 5 (prompt) and 2 (sampled) into the history.
    assert_eq!(generation.apply(&[5], 4).unwrap(), 2);

    let logits = Tensor::from_vec(vec![1.0f32; 8], 8, &Device::Cpu).unwrap();
    let out = generation.penalize_scores(logits).unwrap();
    let values = out.to_vec1::<f32>().unwrap();
    for (i, v) in values.into_iter().enumerate() {
        if i == 5 || i == 2 {
            assert_eq!(v, 0.5, "token {i} occurs in the history");
        } else {
            assert_eq!(v, 1.0, "token {i} does not occur in the history");
        }
    }
}
