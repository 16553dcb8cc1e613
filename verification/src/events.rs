//! The data that flows through the relay: presence users, decoded client
//! events, and the outbound wire events that broadcasts carry.

use vstd::prelude::*;

verus! {

/// A presence record contributed by a join event.
pub struct User {
    pub id: String,
    pub name: String,
    pub nickname: String,
    pub status: String,
}

/// Mathematical image of a `User`.
pub struct UserV {
    pub id: Seq<char>,
    pub name: Seq<char>,
    pub nickname: Seq<char>,
    pub status: Seq<char>,
}

impl View for User {
    type V = UserV;

    open spec fn view(&self) -> UserV {
        UserV { id: self.id@, name: self.name@, nickname: self.nickname@, status: self.status@ }
    }
}

impl User {
    /// An exact copy; `Clone` is avoided so that the copy carries a contract.
    pub fn duplicate(&self) -> (r: User)
        ensures
            r@ == self@,
    {
        User {
            id: self.id.clone(),
            name: self.name.clone(),
            nickname: self.nickname.clone(),
            status: self.status.clone(),
        }
    }
}

/// A successfully decoded inbound client event, by declared kind.
pub enum ClientEvent {
    Join { user: User },
    Message { text: String, sender: String, encrypted: bool },
    File { file_data: String, sender: String },
    Edit { message_id: String, new_text: String, sender: String, encrypted: bool },
    Delete { message_id: String, sender: String },
}

/// Mathematical image of a `ClientEvent`.
pub enum ClientEventV {
    Join { user: UserV },
    Message { text: Seq<char>, sender: Seq<char>, encrypted: bool },
    File { file_data: Seq<char>, sender: Seq<char> },
    Edit { message_id: Seq<char>, new_text: Seq<char>, sender: Seq<char>, encrypted: bool },
    Delete { message_id: Seq<char>, sender: Seq<char> },
}

impl View for ClientEvent {
    type V = ClientEventV;

    open spec fn view(&self) -> ClientEventV {
        match self {
            ClientEvent::Join { user } => ClientEventV::Join { user: user@ },
            ClientEvent::Message { text, sender, encrypted } => ClientEventV::Message {
                text: text@,
                sender: sender@,
                encrypted: *encrypted,
            },
            ClientEvent::File { file_data, sender } => ClientEventV::File {
                file_data: file_data@,
                sender: sender@,
            },
            ClientEvent::Edit { message_id, new_text, sender, encrypted } => ClientEventV::Edit {
                message_id: message_id@,
                new_text: new_text@,
                sender: sender@,
                encrypted: *encrypted,
            },
            ClientEvent::Delete { message_id, sender } => ClientEventV::Delete {
                message_id: message_id@,
                sender: sender@,
            },
        }
    }
}

/// An outbound event before it is stamped and serialized.
pub enum WireEvent {
    System { text: String },
    Message { text: String, sender: String, encrypted: bool },
    File { file_data: String, sender: String },
    Edited { message_id: String, new_text: String, sender: String, encrypted: bool },
    Deleted { message_id: String, sender: String },
}

/// Mathematical image of a `WireEvent`.
pub enum WireEventV {
    System { text: Seq<char> },
    Message { text: Seq<char>, sender: Seq<char>, encrypted: bool },
    File { file_data: Seq<char>, sender: Seq<char> },
    Edited { message_id: Seq<char>, new_text: Seq<char>, sender: Seq<char>, encrypted: bool },
    Deleted { message_id: Seq<char>, sender: Seq<char> },
}

impl View for WireEvent {
    type V = WireEventV;

    open spec fn view(&self) -> WireEventV {
        match self {
            WireEvent::System { text } => WireEventV::System { text: text@ },
            WireEvent::Message { text, sender, encrypted } => WireEventV::Message {
                text: text@,
                sender: sender@,
                encrypted: *encrypted,
            },
            WireEvent::File { file_data, sender } => WireEventV::File {
                file_data: file_data@,
                sender: sender@,
            },
            WireEvent::Edited { message_id, new_text, sender, encrypted } => WireEventV::Edited {
                message_id: message_id@,
                new_text: new_text@,
                sender: sender@,
                encrypted: *encrypted,
            },
            WireEvent::Deleted { message_id, sender } => WireEventV::Deleted {
                message_id: message_id@,
                sender: sender@,
            },
        }
    }
}

} // verus!
