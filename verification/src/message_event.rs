//! A room message as the bot sees it, with its edits.

use vstd::prelude::*;
use vstd::string::*;

verus! {

/// Where the content of a file is stored.
#[derive(Debug)]
pub enum MediaSource {
    /// A content locator that anybody in the room can fetch.
    Plain(String),
    /// An encrypted file; the bot cannot use it.
    Encrypted,
}

/// An image or a video in a message.
#[derive(Debug)]
pub struct MediaContent {
    /// The file name, or a caption.
    pub body: String,
    pub source: MediaSource,
}

/// The content of a message by its kind.
#[derive(Debug)]
pub enum MessageType {
    Text(String),
    Notice(String),
    Image(MediaContent),
    Video(MediaContent),
    /// Any other kind of message.
    Other,
}

/// An edit: the message that it replaces, and the new content.
#[derive(Debug)]
pub struct Replacement {
    pub event_id: String,
    pub new_content: MessageType,
}

/// A message of a room.
#[derive(Debug)]
pub struct MessageEvent {
    pub event_id: String,
    pub sender: String,
    /// When the server received the message, in milliseconds since the Unix
    /// epoch.
    pub origin_server_ts: i64,
    /// The content that the message was sent with.
    pub content: MessageType,
    /// Set where the message is itself an edit of another one.
    pub replaces: Option<Replacement>,
    /// The new content of the latest edit that the server has bundled with
    /// the message, if any.
    pub latest_edit: Option<MessageType>,
}

impl MessageEvent {
    /// The content that counts: that of the latest bundled edit where there
    /// is one, else the new content where the message is an edit itself,
    /// else the content that it was sent with.
    pub open spec fn current(&self) -> MessageType {
        match self.latest_edit {
            Some(edit) => edit,
            None => match self.replaces {
                Some(r) => r.new_content,
                None => self.content,
            },
        }
    }

    /// The message type: see `current`.
    pub fn msgtype(&self) -> (r: &MessageType)
        ensures
            *r == self.current(),
    {
        match &self.latest_edit {
            Some(edit) => edit,
            None => match &self.replaces {
                Some(r) => &r.new_content,
                None => &self.content,
            },
        }
    }

    /// If this message is an edit, the id of the message that it replaces.
    pub fn edited_event_id(&self) -> (r: Option<&String>)
        ensures
            r is Some == self.replaces is Some,
            r matches Some(id) ==> *id == self.replaces->0.event_id,
    {
        match &self.replaces {
            Some(r) => Some(&r.event_id),
            None => None,
        }
    }

    /// The text of the message, if any. A notice counts as text only where
    /// `allow_notice` is set.
    pub fn text(&self, allow_notice: bool) -> (r: Option<&String>)
        ensures
            r == (match self.current() {
                MessageType::Text(body) => Some(&body),
                MessageType::Notice(body) => if allow_notice {
                    Some(&body)
                } else {
                    None
                },
                _ => None,
            }),
    {
        match self.msgtype() {
            MessageType::Text(body) => Some(body),
            MessageType::Notice(body) => if allow_notice {
                Some(body)
            } else {
                None
            },
            _ => None,
        }
    }

    /// The image of the message, if any.
    pub fn image(&self) -> (r: Option<&MediaContent>)
        ensures
            r == (match self.current() {
                MessageType::Image(content) => Some(&content),
                _ => None,
            }),
    {
        match self.msgtype() {
            MessageType::Image(content) => Some(content),
            _ => None,
        }
    }

    /// The video of the message, if any.
    pub fn video(&self) -> (r: Option<&MediaContent>)
        ensures
            r == (match self.current() {
                MessageType::Video(content) => Some(&content),
                _ => None,
            }),
    {
        match self.msgtype() {
            MessageType::Video(content) => Some(content),
            _ => None,
        }
    }
}

} // verus!
