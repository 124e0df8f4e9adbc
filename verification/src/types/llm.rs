//! The messages of a chat with a language model.
use vstd::prelude::*;

verus! {

/// Who says something.
#[derive(Clone, Copy, Debug, PartialEq, Eq, Structural)]
pub enum ChatRole {
    System,
    User,
    Assistant,
}

/// A message.
#[derive(Clone, Debug, PartialEq, Eq)]
pub struct ChatMessage {
    pub role: ChatRole,
    pub content: ChatMessageContent,
}

/// A part of a message.
#[derive(Clone, Debug, PartialEq, Eq)]
pub enum ChatMessageContentPart {
    Text(ChatMessageTextContent),
    ImageUrl(ChatMessageImageContent),
}

/// A text in a message.
#[derive(Clone, Debug, PartialEq, Eq)]
pub struct ChatMessageTextContent {
    pub text: String,
}

/// Where a picture is found.
#[derive(Clone, Debug, PartialEq, Eq)]
pub struct ChatMessageImageUrl {
    pub url: String,
}

/// A picture that comes with a message.
#[derive(Clone, Debug, PartialEq, Eq)]
pub struct ChatMessageSource {
    pub source_type: String,
    pub media_type: String,
    pub data: String,
}

/// A picture in a message.
#[derive(Clone, Debug, PartialEq, Eq)]
pub struct ChatMessageImageContent {
    pub image_url: Option<ChatMessageImageUrl>,
    pub text: Option<String>,
    pub source: Option<ChatMessageSource>,
}

/// What a message says: a text, or parts.
#[derive(Clone, Debug, PartialEq, Eq)]
pub enum ChatMessageContent {
    Text(String),
    Parts(Vec<ChatMessageContentPart>),
}

impl ChatMessageContent {
    /// A message that is a text.
    pub fn text(value: &str) -> (out: Self)
        ensures
            out matches ChatMessageContent::Text(text) && text@ == value@,
    {
        ChatMessageContent::Text(value.to_owned())
    }
}

} // verus!
