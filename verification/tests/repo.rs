use mospeada::error::EngineError;
use mospeada::repo::dedup_names;
use mospeada::repo::load_safetensors;
use mospeada::repo::read_safetensors_index;
use mospeada::repo::LocalRepo;
use mospeada::repo::Repo;

#[test]
fn local_repo() -> Result<(), EngineError> {
    let root = "/Users/kigi/.cache/huggingface/hub/models--Qwen--Qwen2.5-1.5B-Instruct/snapshots/989aa7980e4cf806f80c7fef2b1adb7bc71aa306";

    let repo = LocalRepo::new("Qwen/Qwen2.5-1.5B-Instruct", root);

    assert_eq!(repo.model_id(), "Qwen/Qwen2.5-1.5B-Instruct");
    assert_eq!(repo.config_file()?, format!("{root}/config.json"));
    assert_eq!(
        repo.tokenizer_config_file()?,
        format!("{root}/tokenizer_config.json")
    );
    assert_eq!(repo.tokenizer_file()?, format!("{root}/tokenizer.json"));
    assert_eq!(
        repo.generate_config_file()?,
        format!("{root}/generate_config.json")
    );
    assert_eq!(
        repo.safetensors_files()?,
        vec![format!("{root}/model.safetensors")],
    );
    Ok(())
}

#[test]
fn local_repo_other_files() -> Result<(), EngineError> {
    let repo = LocalRepo::new("m", "/models/m");
    assert_eq!(repo.pytorch_model_file()?, "/models/m/pytorch_model.bin");
    assert_eq!(repo.get("vocab.txt")?, "/models/m/vocab.txt");
    Ok(())
}

#[test]
fn shard_index_with_ten_tensors_resolves_two_files() {
    let json = r#"{
        "metadata": {"total_size": 1},
        "weight_map": {
            "t0": "shard-a.safetensors",
            "t1": "shard-b.safetensors",
            "t2": "shard-a.safetensors",
            "t3": "shard-b.safetensors",
            "t4": "shard-a.safetensors",
            "t5": "shard-b.safetensors",
            "t6": "shard-a.safetensors",
            "t7": "shard-b.safetensors",
            "t8": "shard-a.safetensors",
            "t9": "shard-b.safetensors"
        }
    }"#;

    let names = read_safetensors_index(json).unwrap();
    assert_eq!(
        names,
        vec!["shard-a.safetensors".to_string(), "shard-b.safetensors".to_string()]
    );

    let files = load_safetensors("/models/m", json).unwrap();
    assert_eq!(files.len(), 2);
    assert!(files.contains(&"/models/m/shard-a.safetensors".to_string()));
    assert!(files.contains(&"/models/m/shard-b.safetensors".to_string()));
}

#[test]
fn shard_index_without_weight_map_is_rejected() {
    let err = read_safetensors_index(r#"{"metadata": {}}"#).unwrap_err();
    assert!(matches!(err, EngineError::Msg(_)));

    let err = read_safetensors_index(r#"{"weight_map": 3}"#).unwrap_err();
    assert!(matches!(err, EngineError::Msg(_)));

    let err = read_safetensors_index("not json").unwrap_err();
    assert!(matches!(err, EngineError::Json(_)));
}

#[test]
fn dedup_keeps_first_occurrences() {
    let names = vec![
        "b".to_string(),
        "a".to_string(),
        "b".to_string(),
        "c".to_string(),
        "a".to_string(),
    ];
    let out = dedup_names(&names);
    assert_eq!(out, vec!["b".to_string(), "a".to_string(), "c".to_string()]);
}
