use vstd::prelude::*;

verus! {

/// One piece of a chat message: plain text, or a platform emoticon with its text.
#[derive(Debug)]
pub struct ChatMessageFragment {
    pub text: String,
    /// The platform emoticon id, where the fragment is one.
    pub emoticon: Option<String>,
}

/// A badge shown next to a commenter's name: badge set id and version.
#[derive(Debug)]
pub struct UserBadge {
    pub id: String,
    pub version: String,
}

/// One chat message of the log.
#[derive(Debug)]
pub struct Comment {
    pub commenter_id: String,
    pub display_name: String,
    /// Avatar URL of the commenter.
    pub logo: String,
    /// Paid bits attached to the message.
    pub bits_spent: u32,
    pub fragments: Vec<ChatMessageFragment>,
    pub user_badges: Option<Vec<UserBadge>>,
}

/// A 7TV emote of the channel: its name as typed in chat and its image URL.
#[derive(Debug)]
pub struct SevenTVEmote {
    pub name: String,
    pub emote_url: String,
}

impl SevenTVEmote {
    pub open spec fn view(&self) -> (Seq<char>, Seq<char>) {
        (self.name@, self.emote_url@)
    }
}

} // verus!
