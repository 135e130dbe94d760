use mospeada::stream::TextOutputStream;
use mospeada::stream::TokenDecoder;
use mospeada::tokenizer::HfTokenizer;

fn word_level() -> HfTokenizer {
    let definition = r#"{
        "version": "1.0",
        "model": {
            "type": "WordLevel",
            "vocab": {"hello": 0, "world": 1, "<unk>": 2},
            "unk_token": "<unk>"
        }
    }"#;
    let tokenizer: tokenizers::Tokenizer = definition.parse().unwrap();
    HfTokenizer::new(tokenizer)
}

#[test]
fn the_real_tokenizer_decodes_encodes_and_looks_tokens_up() {
    let hf = word_level();
    assert_eq!(hf.decode(&[0, 1]).unwrap(), "hello world");
    assert_eq!(hf.decode(&[]).unwrap(), "");
    assert_eq!(hf.token_id("world"), Some(1));
    assert_eq!(hf.token_id("missing"), None);
    assert_eq!(hf.encode("hello").unwrap(), vec![0]);
}

#[test]
fn streaming_over_the_real_tokenizer() {
    let mut stream = TextOutputStream::new(word_level());
    assert_eq!(stream.next_token(0).unwrap(), Some("hello".to_string()));
    assert_eq!(stream.next_token(1).unwrap(), Some(" world".to_string()));
    assert_eq!(stream.decode_rest().unwrap(), None);
    assert_eq!(stream.decode_all().unwrap(), "hello world");
    assert_eq!(stream.get_token("hello"), Some(0));
}
