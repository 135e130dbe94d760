use mospeada::stream::TextOutputStream;
use mospeada::stream::TokenDecoder;
use mospeada::vocab::VocabDecoder;

fn decoder() -> VocabDecoder {
    VocabDecoder::new(vec![
        "Hello".to_string(),
        " world".to_string(),
        "!".to_string(),
        "ab".to_string(),
        "é".to_string(),
        " ".to_string(),
    ])
}

#[test]
fn flushes_when_text_grows_and_ends_alphanumeric() {
    let mut stream = TextOutputStream::new(decoder());

    // "Hello" ends in 'o': stable at once.
    assert_eq!(stream.next_token(0).unwrap(), Some("Hello".to_string()));
    // "!" leaves the window ending in punctuation: held back.
    assert_eq!(stream.next_token(2).unwrap(), None);
    // "ab" makes the window "Hello!ab"; the part before the last attempted
    // boundary was already delivered, so "!ab" flushes.
    assert_eq!(stream.next_token(3).unwrap(), Some("!ab".to_string()));
    // Trailing whitespace is held back and only decode_rest hands it out.
    assert_eq!(stream.next_token(5).unwrap(), None);
    assert_eq!(stream.decode_rest().unwrap(), Some(" ".to_string()));
}

#[test]
fn multibyte_characters_flush_whole() {
    let mut stream = TextOutputStream::new(decoder());
    // 'é' is alphanumeric and two bytes long; it must come out in one piece.
    assert_eq!(stream.next_token(4).unwrap(), Some("é".to_string()));
    assert_eq!(stream.next_token(4).unwrap(), Some("é".to_string()));
    assert_eq!(stream.decode_rest().unwrap(), None);
    assert_eq!(stream.decode_all().unwrap(), "éé");
}

#[test]
fn streaming_round_trip_matches_full_decode() {
    // Tokens outside the table decode to nothing; 99 exercises that.
    let tokens = [0u32, 1, 2, 3, 99, 4, 1, 5, 0, 2];

    let mut stream = TextOutputStream::new(decoder());
    let mut collected = String::new();
    for t in tokens {
        if let Some(fragment) = stream.next_token(t).unwrap() {
            collected.push_str(&fragment);
        }
    }
    if let Some(rest) = stream.decode_rest().unwrap() {
        collected.push_str(&rest);
    }

    assert_eq!(collected, stream.decode_all().unwrap());
    assert_eq!(collected, "Hello world!abé world Hello!");
}

#[test]
fn decode_rest_is_empty_on_a_fresh_or_cleared_stream() {
    let mut stream = TextOutputStream::new(decoder());
    assert_eq!(stream.decode_rest().unwrap(), None);

    assert_eq!(stream.next_token(0).unwrap(), Some("Hello".to_string()));
    stream.clear();
    assert_eq!(stream.decode_rest().unwrap(), None);
    assert_eq!(stream.decode_all().unwrap(), "");
}

#[test]
fn decode_is_independent_of_the_stream_state() {
    let stream = TextOutputStream::new(decoder());
    assert_eq!(stream.decode(&[1, 2]).unwrap(), " world!");
    assert_eq!(stream.decode(&[]).unwrap(), "");
}

#[test]
fn get_token_finds_the_first_matching_entry() {
    let stream = TextOutputStream::new(decoder());
    assert_eq!(stream.get_token("Hello"), Some(0));
    assert_eq!(stream.get_token("!"), Some(2));
    assert_eq!(stream.get_token("missing"), None);
    assert_eq!(stream.tokenizer().token_id(" world"), Some(1));
    let decoder = stream.into_inner();
    assert_eq!(decoder.token_id("é"), Some(4));
}
