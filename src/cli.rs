use vstd::prelude::*;

verus! {

/// The mode the program runs in.
#[derive(Debug, Clone, Copy, PartialEq, Eq, Structural)]
pub enum Command {
    /// Compose a note and publish it.
    Post,
    /// Fetch new posts into the cache and exit.
    Fetch,
    /// Browse the feed.
    Stream,
    /// Resolve the contact list.
    Contacts,
}

/// The parsed command line; no command means browsing.
#[derive(Debug, Clone, Copy, PartialEq, Eq, Structural)]
pub struct Flags {
    pub command: Option<Command>,
}

impl Flags {
    /// Whether the command is `post`.
    pub fn post(&self) -> (r: bool)
        ensures
            r == (self.command == Some(Command::Post)),
    {
        matches!(self.command, Some(Command::Post))
    }

    /// Whether the command is `fetch`.
    pub fn fetch(&self) -> (r: bool)
        ensures
            r == (self.command == Some(Command::Fetch)),
    {
        matches!(self.command, Some(Command::Fetch))
    }

    /// Whether the command is `stream`.
    pub fn stream(&self) -> (r: bool)
        ensures
            r == (self.command == Some(Command::Stream)),
    {
        matches!(self.command, Some(Command::Stream))
    }

    /// Whether the command is `contacts`.
    pub fn contacts(&self) -> (r: bool)
        ensures
            r == (self.command == Some(Command::Contacts)),
    {
        matches!(self.command, Some(Command::Contacts))
    }
}

} // verus!
