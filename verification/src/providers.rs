//! What is exchanged with a model provider.

use vstd::prelude::*;

verus! {

/// One message of a conversation with a model.
#[derive(Debug)]
pub struct ChatMessage {
    pub role: String,
    pub content: String,
}

/// A `ChatMessage`, with its texts as sequences of characters.
pub struct ChatMessageView {
    pub role: Seq<char>,
    pub content: Seq<char>,
}

impl DeepView for ChatMessage {
    type V = ChatMessageView;

    open spec fn deep_view(&self) -> ChatMessageView {
        ChatMessageView { role: self.role@, content: self.content@ }
    }
}

impl ChatMessage {
    /// A message that sets up the model.
    pub fn system(content: String) -> (message: ChatMessage)
        ensures
            message.deep_view() == (ChatMessageView { role: "system"@, content: content@ }),
    {
        ChatMessage { role: String::from_str("system"), content }
    }

    /// A message of the user.
    pub fn user(content: String) -> (message: ChatMessage)
        ensures
            message.deep_view() == (ChatMessageView { role: "user"@, content: content@ }),
    {
        ChatMessage { role: String::from_str("user"), content }
    }
}

/// A message is seen with its whole role and content.
pub proof fn message_is_seen_whole(message: ChatMessage)
    ensures
        message.deep_view().role == message.role@,
        message.deep_view().content == message.content@,
{
}

} // verus!
