use vstd::prelude::*;

verus! {

/// One note of the feed, as it is cached and displayed.
#[derive(Debug, Clone)]
pub struct Post {
    /// Display name of the author (the contact's name).
    pub user: String,
    /// Creation time in seconds since the epoch; the order of the feed.
    pub timestamp: u64,
    /// `timestamp` rendered in local time, for display only.
    pub datetime: String,
    pub content: String,
    /// Stable identifier of the note, the key of deduplication.
    pub id: String,
    pub root_id: Option<String>,
    pub reply_id: Option<String>,
    pub mentions: Vec<String>,
    pub participants: Vec<String>,
}

impl Post {
    /// A post that answers another one.
    pub fn is_reply(&self) -> (r: bool)
        ensures
            r == self.reply_id.is_some(),
    {
        self.reply_id.is_some()
    }

    /// A post that starts a thread: it names neither a root nor a parent.
    pub fn is_root(&self) -> (r: bool)
        ensures
            r == (self.root_id.is_none() && self.reply_id.is_none()),
    {
        self.root_id.is_none() && self.reply_id.is_none()
    }

    /// A reply inside a thread: it names both the root and its parent.
    pub fn is_thread_reply(&self) -> (r: bool)
        ensures
            r == (self.root_id.is_some() && self.reply_id.is_some()),
    {
        self.root_id.is_some() && self.reply_id.is_some()
    }
}

} // verus!
