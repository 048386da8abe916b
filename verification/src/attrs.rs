//! The annotation surface: reading a kind word out of a forwarding attribute,
//! and the forwarding records the generator passes through to the generated
//! messages.

use vstd::prelude::*;
use crate::OpKind;
use crate::diag::Diagnostic;

verus! {

/// Reads one operation-kind word; anything else is rejected with the list of
/// accepted words.
pub fn parse_msg_type(word: &String) -> (r: Result<OpKind, Diagnostic>)
    ensures
        match r {
            Ok(k) => match k {
                OpKind::Exec => word@ == "exec"@,
                OpKind::Query => word@ == "query"@,
                OpKind::Instantiate => word@ == "instantiate"@,
                OpKind::Migrate => word@ == "migrate"@,
                OpKind::Reply => word@ == "reply"@,
                OpKind::Sudo => word@ == "sudo"@,
            },
            Err(d) => {
                &&& word@ != "exec"@ && word@ != "query"@ && word@ != "instantiate"@
                &&& word@ != "migrate"@ && word@ != "reply"@ && word@ != "sudo"@
                &&& d.message@
                    == "Invalid message type, expected one of: `exec`, `query`, `instantiate`, `migrate`, `reply` or `sudo`."@
            },
        },
{
    if word.eq(&String::from_str("exec")) {
        Ok(OpKind::Exec)
    } else if word.eq(&String::from_str("query")) {
        Ok(OpKind::Query)
    } else if word.eq(&String::from_str("instantiate")) {
        Ok(OpKind::Instantiate)
    } else if word.eq(&String::from_str("migrate")) {
        Ok(OpKind::Migrate)
    } else if word.eq(&String::from_str("reply")) {
        Ok(OpKind::Reply)
    } else if word.eq(&String::from_str("sudo")) {
        Ok(OpKind::Sudo)
    } else {
        Err(
            Diagnostic::new(
                "Invalid message type, expected one of: `exec`, `query`, `instantiate`, `migrate`, `reply` or `sudo`.",
                word,
            ),
        )
    }
}

/// An attribute forwarded onto one generated variant, kept verbatim.
#[derive(Debug)]
pub struct VariantAttrForwarding {
    /// The forwarded attribute's rendering.
    pub attrs: String,
    /// The item the attribute was written on.
    pub origin: String,
}

impl VariantAttrForwarding {
    /// Records one forwarded variant attribute.
    pub fn new(attrs: String, origin: String) -> (r: VariantAttrForwarding)
        ensures
            r.attrs == attrs,
            r.origin == origin,
    {
        VariantAttrForwarding { attrs, origin }
    }
}

/// An attribute forwarded onto one generated message type.
#[derive(Debug)]
pub struct MsgAttrForwarding {
    /// The kind of message the attribute is forwarded to.
    pub msg_type: OpKind,
    /// The forwarded attribute's rendering.
    pub attrs: String,
}

impl MsgAttrForwarding {
    /// Reads a forwarding declaration: the kind word, then the attribute to
    /// forward.
    pub fn new(kind_word: &String, attrs: String) -> (r: Result<MsgAttrForwarding, Diagnostic>)
        ensures
            match r {
                Ok(f) => f.attrs == attrs,
                Err(d) => d.message@
                    == "Invalid message type, expected one of: `exec`, `query`, `instantiate`, `migrate`, `reply` or `sudo`."@,
            },
    {
        match parse_msg_type(kind_word) {
            Ok(msg_type) => Ok(MsgAttrForwarding { msg_type, attrs }),
            Err(d) => Err(d),
        }
    }
}

} // verus!
