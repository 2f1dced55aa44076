//! Settings of a run.
use crate::text::{push_signed_decimal, signed_decimal};
use vstd::prelude::*;

verus! {

/// Switches that change what a run does, for debugging.
#[derive(Debug)]
pub struct DebugConfig {
    pub clear_channel: bool,
    pub exit_after_clearing: bool,
    pub skip_sending: bool,
    pub skip_feature_reactions: bool,
    pub skip_artes: bool,
    pub event_limit: Option<i32>,
}

/// A custom emoji of the server, by name and id.
#[derive(Debug, Clone)]
pub struct EmojiConfig {
    pub id: i64,
    pub name: String,
}

/// The text that mentions the custom emoji `name` with id `id` in a message.
pub open spec fn emoji_markup(name: Seq<char>, id: int) -> Seq<char> {
    "<:"@ + name + ":"@ + signed_decimal(id) + ">"@
}

impl EmojiConfig {
    /// The emoji as it is written in a message: `<:name:id>`.
    pub fn to_string(&self) -> (r: String)
        ensures
            r@ == emoji_markup(self.name@, self.id as int),
    {
        let mut r = String::from_str("<:");
        r.append(self.name.as_str());
        r.append(":");
        push_signed_decimal(&mut r, self.id);
        r.append(">");
        r
    }
}

} // verus!
