//! Reply payload bindings: how typed data and an opaque correlation payload
//! are extracted from a sub-message completion acknowledgment, and the errors
//! the generated handler reports when the data is absent or malformed.

use vstd::prelude::*;
use crate::value::Value;

verus! {

/// The base64 alphabet, in value order.
pub open spec fn b64_alphabet() -> Seq<char> {
    "ABCDEFGHIJKLMNOPQRSTUVWXYZabcdefghijklmnopqrstuvwxyz0123456789+/"@
}

/// The standard base64 rendering of a byte sequence, padded with `=` to a
/// multiple of four characters.
pub open spec fn spec_base64(bytes: Seq<u8>) -> Seq<char>
    decreases bytes.len(),
{
    if bytes.len() == 0 {
        Seq::empty()
    } else if bytes.len() == 1 {
        let b0 = bytes[0] as int;
        seq![
            b64_alphabet()[b0 / 4],
            b64_alphabet()[(b0 % 4) * 16],
            '=',
            '=',
        ]
    } else if bytes.len() == 2 {
        let b0 = bytes[0] as int;
        let b1 = bytes[1] as int;
        seq![
            b64_alphabet()[b0 / 4],
            b64_alphabet()[(b0 % 4) * 16 + b1 / 16],
            b64_alphabet()[(b1 % 16) * 4],
            '=',
        ]
    } else {
        let b0 = bytes[0] as int;
        let b1 = bytes[1] as int;
        let b2 = bytes[2] as int;
        seq![
            b64_alphabet()[b0 / 4],
            b64_alphabet()[(b0 % 4) * 16 + b1 / 16],
            b64_alphabet()[(b1 % 16) * 4 + b2 / 64],
            b64_alphabet()[b2 % 64],
        ] + spec_base64(bytes.skip(3))
    }
}

fn b64_char(v: u8) -> (r: char)
    requires
        v < 64,
    ensures
        r == b64_alphabet()[v as int],
{
    let table = "ABCDEFGHIJKLMNOPQRSTUVWXYZabcdefghijklmnopqrstuvwxyz0123456789+/";
    proof {
        reveal_strlit("ABCDEFGHIJKLMNOPQRSTUVWXYZabcdefghijklmnopqrstuvwxyz0123456789+/");
    }
    table.get_char(v as usize)
}

/// Renders bytes in standard padded base64.
pub fn base64_encode(bytes: &Vec<u8>) -> (r: String)
    ensures
        r@ == spec_base64(bytes@),
{
    let mut s = String::new();
    let mut i: usize = 0;
    proof {
        assert(bytes@.skip(0) =~= bytes@);
    }
    while bytes.len() - i >= 3
        invariant
            i <= bytes@.len(),
            i % 3 == 0,
            spec_base64(bytes@) == s@ + spec_base64(bytes@.skip(i as int)),
        decreases bytes@.len() - i,
    {
        let ghost rem = bytes@.skip(i as int);
        let b0 = bytes[i];
        let b1 = bytes[i + 1];
        let b2 = bytes[i + 2];
        assert(rem.len() >= 3);
        assert(rem[0] == b0 && rem[1] == b1 && rem[2] == b2);
        let ghost old_s = s@;
        let mut quad = String::new();
        push_char(&mut quad, b64_char(b0 / 4));
        push_char(&mut quad, b64_char((b0 % 4) * 16 + b1 / 16));
        push_char(&mut quad, b64_char((b1 % 16) * 4 + b2 / 64));
        push_char(&mut quad, b64_char(b2 % 64));
        s.append(quad.as_str());
        proof {
            assert(rem.skip(3) =~= bytes@.skip(i + 3));
            assert(spec_base64(rem) =~= quad@ + spec_base64(bytes@.skip(i + 3)));
            assert(spec_base64(bytes@) =~= s@ + spec_base64(bytes@.skip(i + 3)));
        }
        i = i + 3;
    }
    let ghost rem = bytes@.skip(i as int);
    assert(rem.len() < 3);
    if i == bytes.len() {
        assert(rem.len() == 0);
        assert(s@ =~= s@ + spec_base64(rem));
    } else if i + 1 == bytes.len() {
        let b0 = bytes[i];
        assert(rem.len() == 1 && rem[0] == b0);
        let mut quad = String::new();
        push_char(&mut quad, b64_char(b0 / 4));
        push_char(&mut quad, b64_char((b0 % 4) * 16));
        quad.append("==");
        proof {
            reveal_strlit("==");
            assert("=="@[0] == '=' && "=="@[1] == '=');
            assert(quad@ =~= spec_base64(rem));
        }
        s.append(quad.as_str());
    } else {
        let b0 = bytes[i];
        let b1 = bytes[i + 1];
        assert(rem.len() == 2 && rem[0] == b0 && rem[1] == b1);
        let mut quad = String::new();
        push_char(&mut quad, b64_char(b0 / 4));
        push_char(&mut quad, b64_char((b0 % 4) * 16 + b1 / 16));
        push_char(&mut quad, b64_char((b1 % 16) * 4));
        quad.append("=");
        proof {
            reveal_strlit("=");
            assert("="@[0] == '=');
            assert(quad@ =~= spec_base64(rem));
        }
        s.append(quad.as_str());
    }
    s
}

/// Relies on std's `String::push`: appends exactly the one character.
#[verifier::external_body]
fn push_char(s: &mut String, c: char)
    ensures
        final(s)@ == old(s)@.push(c),
{
    s.push(c);
}

/// How a reply handler extracts typed data from the acknowledgment.
#[derive(Clone, Copy, Debug, PartialEq, Eq, Structural)]
pub enum DataMode {
    /// The raw bytes are forwarded untouched.
    Raw,
    /// The bytes must deserialize into the declared sub-message shape.
    Typed,
}

/// The binding declared on one reply handler: how its data argument is
/// extracted, and whether the data may be absent.
#[derive(Clone, Copy, Debug, PartialEq, Eq, Structural)]
pub struct ReplyBinding {
    pub mode: DataMode,
    /// Absent data is an error for a required binding and fine for an
    /// optional one.
    pub required: bool,
}

/// Why a reply failed to dispatch.
#[derive(Debug)]
pub enum ReplyError {
    /// The binding requires data and the acknowledgment carries none.
    MissingData,
    /// The data does not deserialize into the declared shape; the raw bytes
    /// are reported in base64 beside the decoder's complaint.
    InvalidData { encoded: String, err: String },
}

impl ReplyError {
    /// The report the generated handler hands back.
    pub fn message(&self) -> (r: String)
        ensures
            match self {
                ReplyError::MissingData => r@ == "Missing reply data field."@,
                ReplyError::InvalidData { encoded, err } => r@ == "Invalid reply data: "@
                    + encoded@ + "\nSerde error while deserializing "@ + err@,
            },
    {
        match self {
            ReplyError::MissingData => {
                let mut s = String::new();
                s.append("Missing reply data field.");
                assert(s@ =~= "Missing reply data field."@);
                s
            },
            ReplyError::InvalidData { encoded, err } => {
                let mut s = String::new();
                s.append("Invalid reply data: ");
                s.append(encoded.as_str());
                s.append("\nSerde error while deserializing ");
                s.append(err.as_str());
                proof {
                    assert(s@ =~= "Invalid reply data: "@ + encoded@
                        + "\nSerde error while deserializing "@ + err@);
                }
                s
            },
        }
    }
}

/// Applies the presence rule of the binding: absent data fails exactly when
/// the binding requires it; present data is handed on untouched.
pub fn extract_reply_data(binding: &ReplyBinding, data: Option<Vec<u8>>) -> (r: Result<
    Option<Vec<u8>>,
    ReplyError,
>)
    ensures
        match data {
            None => if binding.required {
                r matches Err(e) && e is MissingData
            } else {
                r matches Ok(d) && d is None
            },
            Some(d) => r matches Ok(out) && out matches Some(v) && v == d,
        },
{
    match data {
        None => {
            if binding.required {
                Err(ReplyError::MissingData)
            } else {
                Ok(None)
            }
        },
        Some(d) => Ok(Some(d)),
    }
}

/// Applies the typed-extraction rule to present data: a decoded value is
/// forwarded together with the caller's correlation payload, untouched; a
/// decoder complaint fails with the raw bytes in base64 beside it. The
/// deserialization itself is the serialization layer's work, so its outcome
/// is taken as an argument and every outcome is covered.
pub fn finish_typed_reply(raw: &Vec<u8>, decoded: Result<Value, String>, payload: Vec<u8>) -> (r:
    Result<(Value, Vec<u8>), ReplyError>)
    ensures
        match decoded {
            Ok(v) => r matches Ok(out) && out.0 == v && out.1 == payload,
            Err(e) => r matches Err(
                ReplyError::InvalidData { encoded, err },
            ) && encoded@ == spec_base64(raw@) && err@ == e@,
        },
{
    match decoded {
        Ok(v) => Ok((v, payload)),
        Err(e) => Err(ReplyError::InvalidData { encoded: base64_encode(raw), err: e }),
    }
}

} // verus!
