use synesthesia::share::{decode_token, encode_token};

const POINT: &[u8] = br#"{"name":"a point","audio":{"masterGain":0.8,"formulas":{"fm":{"enabled":true}}}}"#;

fn parsed(bytes: Option<Vec<u8>>) -> Option<serde_json::Value> {
    bytes.and_then(|b| serde_json::from_slice(&b).ok())
}

#[test]
fn a_point_survives_the_round_trip() {
    let token = encode_token(POINT);
    assert_eq!(decode_token(&token).as_deref(), Some(POINT));
    assert!(token.chars().all(|c| c.is_ascii_alphanumeric() || c == '-' || c == '_'));
}

#[test]
fn a_whole_link_is_accepted_too() {
    let token = encode_token(POINT);
    let link = format!("https://dmitryweiner.github.io/synesthesia/#s={token}");
    assert_eq!(decode_token(&link).as_deref(), Some(POINT));
    assert_eq!(decode_token(&format!("  #s={token}  ")).as_deref(), Some(POINT));
    assert_eq!(decode_token(&format!("s={token}")).as_deref(), Some(POINT));
    assert_eq!(decode_token(&format!("#s={token}&v=2")).as_deref(), Some(POINT));
}

#[test]
fn nonsense_is_rejected_rather_than_guessed() {
    assert!(parsed(decode_token("")).is_none());
    assert!(parsed(decode_token("not a token")).is_none());
    assert!(parsed(decode_token("###")).is_none());
    assert!(decode_token("###").is_none());
}

#[test]
fn the_token_is_base64url_without_padding() {
    assert_eq!(encode_token(b"hi"), "aGk");
    assert_eq!(encode_token(b"\xfb\xff"), "-_8");
    assert_eq!(decode_token("aGk").as_deref(), Some(&b"hi"[..]));
    assert_eq!(decode_token("aGk=").as_deref(), None);
}
