//! The parts of platform messages, reactions, users and channels that the
//! engine reads, as plain values.
use vstd::prelude::*;

verus! {

/// A named field of an embed.
#[derive(Debug, Clone)]
pub struct EmbedField {
    pub name: String,
    pub value: String,
}

/// The rich block attached to a message.
#[derive(Debug, Clone)]
pub struct EmbedInfo {
    pub title: Option<String>,
    pub url: Option<String>,
    pub description: Option<String>,
    pub fields: Vec<EmbedField>,
}

/// A message of a channel's history.
#[derive(Debug, Clone)]
pub struct ChannelMessage {
    pub id: u64,
    pub author_id: u64,
    /// The message is an ordinary one (not a pin notice, a join notice, ...).
    pub regular: bool,
    /// The message replies to another message.
    pub is_reply: bool,
    pub pinned: bool,
    pub content: String,
    pub embeds: Vec<EmbedInfo>,
}

/// What a reaction is made with.
#[derive(Debug, Clone)]
pub enum ReactionKind {
    Unicode(String),
    Custom { id: u64, name: Option<String> },
}

/// A reaction on a message: how many users made it, and whether the bot did.
#[derive(Debug, Clone)]
pub struct ReactionSummary {
    pub kind: ReactionKind,
    pub count: u64,
    pub me: bool,
}

/// A user who reacted to a message.
#[derive(Debug, Clone)]
pub struct ReactingUser {
    pub id: u64,
    pub bot: bool,
}

/// A sub-channel of a channel.
#[derive(Debug, Clone)]
pub struct ThreadInfo {
    pub id: u64,
    pub name: String,
    pub parent_id: Option<u64>,
}

/// The URL of the first embed of a message, if it has one.
pub open spec fn first_embed_url(m: ChannelMessage) -> Option<Seq<char>> {
    if m.embeds@.len() > 0 {
        match m.embeds@[0].url {
            Some(u) => Some(u@),
            None => None,
        }
    } else {
        None
    }
}

impl ChannelMessage {
    /// The URL of this message's first embed, if it has one.
    pub fn first_embed_url(&self) -> (r: Option<&String>)
        ensures
            r matches Some(u) ==> first_embed_url(*self) == Some(u@),
            r is None ==> first_embed_url(*self) is None,
    {
        if self.embeds.len() > 0 {
            match &self.embeds[0].url {
                Some(u) => Some(u),
                None => None,
            }
        } else {
            None
        }
    }
}

} // verus!
