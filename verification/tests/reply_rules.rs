//! Tests for the reply payload bindings: the presence rule, the typed
//! extraction rule, and the rendered error reports.

use sylvia::reply::{
    base64_encode, extract_reply_data, finish_typed_reply, DataMode, ReplyBinding, ReplyError,
};
use sylvia::value::Value;

const SERDE_STRING_ERR: &str =
    "Error parsing into type alloc::string::String: Invalid type";

fn decode_as_string(bytes: &[u8]) -> Result<Value, String> {
    // Stands in for the serialization layer: a JSON string literal decodes,
    // anything else is refused with the decoder's complaint.
    if bytes.len() >= 2 && bytes[0] == b'"' && bytes[bytes.len() - 1] == b'"' {
        Ok(Value::Str(
            String::from_utf8(bytes[1..bytes.len() - 1].to_vec()).unwrap(),
        ))
    } else {
        Err(SERDE_STRING_ERR.to_string())
    }
}

/// The reply-dispatch scenario, binding by binding: raw-optional and
/// raw-required forward the bytes, typed bindings decode them, and absent or
/// malformed data fails with the documented reports.
#[test]
fn dispatch_replies() {
    let data: Vec<u8> = b"\"some_data\"".to_vec();
    let invalid_data: Vec<u8> = b"InvalidData".to_vec();
    let payload: Vec<u8> = b"correlation".to_vec();

    let data_raw_opt = ReplyBinding { mode: DataMode::Raw, required: false };
    let data_raw = ReplyBinding { mode: DataMode::Raw, required: true };
    let data_opt = ReplyBinding { mode: DataMode::Typed, required: false };
    let data_required = ReplyBinding { mode: DataMode::Typed, required: true };

    // Should forward `data` in every case
    assert_eq!(extract_reply_data(&data_raw_opt, None).unwrap(), None);
    assert_eq!(
        extract_reply_data(&data_raw_opt, Some(data.clone())).unwrap(),
        Some(data.clone())
    );

    // Should forward `data` if `Some` and return error if `None`
    let err = extract_reply_data(&data_raw, None).unwrap_err();
    assert_eq!(err.message(), "Missing reply data field.");
    assert_eq!(
        extract_reply_data(&data_raw, Some(data.clone())).unwrap(),
        Some(data.clone())
    );

    // Should forward deserialized `data` if `Some` or `None` and return error
    // if deserialization fails
    assert_eq!(extract_reply_data(&data_opt, None).unwrap(), None);
    let raw = extract_reply_data(&data_opt, Some(invalid_data.clone())).unwrap().unwrap();
    let err = finish_typed_reply(&raw, decode_as_string(&raw), payload.clone()).unwrap_err();
    assert_eq!(
        err.message(),
        "Invalid reply data: SW52YWxpZERhdGE=\n\
         Serde error while deserializing Error parsing into type \
         alloc::string::String: Invalid type"
    );
    let raw = extract_reply_data(&data_opt, Some(data.clone())).unwrap().unwrap();
    let (value, echoed) =
        finish_typed_reply(&raw, decode_as_string(&raw), payload.clone()).unwrap();
    assert_eq!(value, Value::Str("some_data".to_string()));
    assert_eq!(echoed, payload);

    // Should forward deserialized `data` if `Some` and return error if `None`
    // or if deserialization fails
    let err = extract_reply_data(&data_required, None).unwrap_err();
    assert_eq!(err.message(), "Missing reply data field.");
    let raw = extract_reply_data(&data_required, Some(invalid_data)).unwrap().unwrap();
    let err = finish_typed_reply(&raw, decode_as_string(&raw), payload.clone()).unwrap_err();
    match &err {
        ReplyError::InvalidData { encoded, err } => {
            assert_eq!(encoded, "SW52YWxpZERhdGE=");
            assert_eq!(err, SERDE_STRING_ERR);
        }
        other => panic!("wrong error: {:?}", other),
    }
    let raw = extract_reply_data(&data_required, Some(data)).unwrap().unwrap();
    let (value, echoed) = finish_typed_reply(&raw, decode_as_string(&raw), payload.clone()).unwrap();
    assert_eq!(value, Value::Str("some_data".to_string()));
    assert_eq!(echoed, payload);
}

#[test]
fn base64_matches_the_standard_vectors() {
    assert_eq!(base64_encode(&vec![]), "");
    assert_eq!(base64_encode(&b"f".to_vec()), "Zg==");
    assert_eq!(base64_encode(&b"fo".to_vec()), "Zm8=");
    assert_eq!(base64_encode(&b"foo".to_vec()), "Zm9v");
    assert_eq!(base64_encode(&b"foob".to_vec()), "Zm9vYg==");
    assert_eq!(base64_encode(&b"fooba".to_vec()), "Zm9vYmE=");
    assert_eq!(base64_encode(&b"foobar".to_vec()), "Zm9vYmFy");
    assert_eq!(base64_encode(&b"InvalidData".to_vec()), "SW52YWxpZERhdGE=");
    assert_eq!(base64_encode(&vec![0xff, 0xee, 0xdd]), "/+7d");
}

#[test]
fn correlation_payload_is_echoed_unchanged() {
    let token: Vec<u8> = vec![1, 2, 3, 4, 5];
    let raw: Vec<u8> = b"\"ok\"".to_vec();
    let (_, echoed) = finish_typed_reply(&raw, Ok(Value::Str("ok".to_string())), token.clone())
        .unwrap();
    assert_eq!(echoed, token);
}
