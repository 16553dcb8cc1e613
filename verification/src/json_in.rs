//! Decoding of inbound frames. Parsing the raw text into a dynamically
//! shaped document is done by serde_json behind one trusted wrapper, whose
//! result — the fields the relay reads, as plain optional values — is a
//! function of the frame text alone and is therefore named `gather_of`.
//! The validation of required fields per declared kind, including the
//! assembly of a complete user record, is the verified `decode_event`.

use vstd::prelude::*;
use crate::events::{ClientEvent, ClientEventV, User, UserV};

verus! {

/// What the relay reads of an inbound document: each field the router may
/// consult, present when the document carries it with the right shape.
pub struct InboundDoc {
    pub typ: Option<String>,
    pub text: Option<String>,
    pub sender: Option<String>,
    pub file_data: Option<String>,
    pub message_id: Option<String>,
    pub new_text: Option<String>,
    pub encrypted: Option<bool>,
    pub user_id: Option<String>,
    pub user_name: Option<String>,
    pub user_nickname: Option<String>,
    pub user_status: Option<String>,
}

/// Mathematical image of an `InboundDoc`.
pub struct InboundDocV {
    pub typ: Option<Seq<char>>,
    pub text: Option<Seq<char>>,
    pub sender: Option<Seq<char>>,
    pub file_data: Option<Seq<char>>,
    pub message_id: Option<Seq<char>>,
    pub new_text: Option<Seq<char>>,
    pub encrypted: Option<bool>,
    pub user_id: Option<Seq<char>>,
    pub user_name: Option<Seq<char>>,
    pub user_nickname: Option<Seq<char>>,
    pub user_status: Option<Seq<char>>,
}

/// View of an optional string field.
pub open spec fn opt_str_view(o: Option<String>) -> Option<Seq<char>> {
    match o {
        Some(s) => Some(s@),
        None => None,
    }
}

impl View for InboundDoc {
    type V = InboundDocV;

    open spec fn view(&self) -> InboundDocV {
        InboundDocV {
            typ: opt_str_view(self.typ),
            text: opt_str_view(self.text),
            sender: opt_str_view(self.sender),
            file_data: opt_str_view(self.file_data),
            message_id: opt_str_view(self.message_id),
            new_text: opt_str_view(self.new_text),
            encrypted: self.encrypted,
            user_id: opt_str_view(self.user_id),
            user_name: opt_str_view(self.user_name),
            user_nickname: opt_str_view(self.user_nickname),
            user_status: opt_str_view(self.user_status),
        }
    }
}

/// View of an optional gathered document.
pub open spec fn opt_doc_view(d: Option<InboundDoc>) -> Option<InboundDocV> {
    match d {
        Some(x) => Some(x@),
        None => None,
    }
}

/// What gathering yields for a given frame text: nothing when the text is
/// not well-formed JSON, else the document's readable fields. The full
/// statement would be a JSON grammar; serde_json's parse depends on the
/// text alone, so the result bears a name instead.
pub uninterp spec fn gather_of(s: Seq<char>) -> Option<InboundDocV>;

/// Relies on serde_json — from_str, Value::get, Value::as_str,
/// Value::as_bool — to parse one frame of text and hand over, as plain
/// optional values, exactly the fields the relay reads: the top-level
/// strings, the `encrypted` boolean, and the four strings under `user`.
/// Yields nothing when the text is not well-formed JSON.
#[verifier::external_body]
fn gather(text: &str) -> (r: Option<InboundDoc>)
    ensures
        opt_doc_view(r) == gather_of(text@),
{
    let v: serde_json::Value = serde_json::from_str(text).ok()?;
    let s = |k: &str| v.get(k).and_then(|x| x.as_str()).map(|x| x.to_string());
    let u = |k: &str| v.get("user").and_then(|y| y.get(k)).and_then(|x| x.as_str()).map(|x| x.to_string());
    Some(InboundDoc {
        typ: s("type"), text: s("text"), sender: s("sender"), file_data: s("fileData"),
        message_id: s("messageId"), new_text: s("newText"),
        encrypted: v.get("encrypted").and_then(|x| x.as_bool()),
        user_id: u("id"), user_name: u("name"), user_nickname: u("nickname"), user_status: u("status"),
    })
}

/// Gathers the fields the relay reads from one inbound frame of text;
/// nothing when the text is not well-formed JSON.
pub fn parse_inbound(text: &str) -> (r: Option<InboundDoc>)
    ensures
        opt_doc_view(r) == gather_of(text@),
{
    gather(text)
}

/// The event a document decodes to: the declared kind selects the variant,
/// each kind demands its required fields — a join demands all four user
/// fields — the `encrypted` flag defaults to false, and anything else
/// (unknown kind, missing kind, missing required field) decodes to nothing
/// and is dropped.
pub open spec fn spec_decode(d: InboundDocV) -> Option<ClientEventV> {
    match d.typ {
        None => None,
        Some(t) => if t == "user_join"@ {
            match (d.user_id, d.user_name, d.user_nickname, d.user_status) {
                (Some(id), Some(name), Some(nickname), Some(status)) => Some(
                    ClientEventV::Join { user: (UserV { id, name, nickname, status }) },
                ),
                _ => None,
            }
        } else if t == "message"@ {
            match (d.text, d.sender) {
                (Some(text), Some(sender)) => Some(
                    ClientEventV::Message { text, sender, encrypted: flag(d.encrypted) },
                ),
                _ => None,
            }
        } else if t == "file"@ {
            match (d.file_data, d.sender) {
                (Some(file_data), Some(sender)) => Some(
                    ClientEventV::File { file_data, sender },
                ),
                _ => None,
            }
        } else if t == "edit_message"@ {
            match (d.message_id, d.new_text, d.sender) {
                (Some(message_id), Some(new_text), Some(sender)) => Some(
                    ClientEventV::Edit {
                        message_id,
                        new_text,
                        sender,
                        encrypted: flag(d.encrypted),
                    },
                ),
                _ => None,
            }
        } else if t == "delete_message"@ {
            match (d.message_id, d.sender) {
                (Some(message_id), Some(sender)) => Some(
                    ClientEventV::Delete { message_id, sender },
                ),
                _ => None,
            }
        } else {
            None
        },
    }
}

/// An absent or malformed `encrypted` field reads as false.
pub open spec fn flag(o: Option<bool>) -> bool {
    match o {
        Some(b) => b,
        None => false,
    }
}

/// View of a decode result.
pub open spec fn opt_event_view(r: Option<ClientEvent>) -> Option<ClientEventV> {
    match r {
        Some(e) => Some(e@),
        None => None,
    }
}

/// Validates a gathered document against its declared kind and builds the
/// decoded event; fails closed on anything malformed.
pub fn decode_event(doc: InboundDoc) -> (r: Option<ClientEvent>)
    ensures
        opt_event_view(r) == spec_decode(doc@),
{
    let InboundDoc {
        typ,
        text,
        sender,
        file_data,
        message_id,
        new_text,
        encrypted,
        user_id,
        user_name,
        user_nickname,
        user_status,
    } = doc;
    let t = match typ {
        None => {
            return None;
        },
        Some(t) => t,
    };
    let enc = match encrypted {
        Some(b) => b,
        None => false,
    };
    if t.eq(&String::from_str("user_join")) {
        match (user_id, user_name, user_nickname, user_status) {
            (Some(id), Some(name), Some(nickname), Some(status)) => Some(
                ClientEvent::Join { user: User { id, name, nickname, status } },
            ),
            _ => None,
        }
    } else if t.eq(&String::from_str("message")) {
        match (text, sender) {
            (Some(text), Some(sender)) => Some(
                ClientEvent::Message { text, sender, encrypted: enc },
            ),
            _ => None,
        }
    } else if t.eq(&String::from_str("file")) {
        match (file_data, sender) {
            (Some(file_data), Some(sender)) => Some(ClientEvent::File { file_data, sender }),
            _ => None,
        }
    } else if t.eq(&String::from_str("edit_message")) {
        match (message_id, new_text, sender) {
            (Some(message_id), Some(new_text), Some(sender)) => Some(
                ClientEvent::Edit { message_id, new_text, sender, encrypted: enc },
            ),
            _ => None,
        }
    } else if t.eq(&String::from_str("delete_message")) {
        match (message_id, sender) {
            (Some(message_id), Some(sender)) => Some(ClientEvent::Delete { message_id, sender }),
            _ => None,
        }
    } else {
        None
    }
}

} // verus!
