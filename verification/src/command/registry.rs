//! The commands the palette can run, as the palette reads them.
use vstd::prelude::*;

verus! {

/// A command: its identifier, its label and its category.
pub struct CommandEntry {
    pub id: String,
    pub label: String,
    pub category: Option<String>,
}

/// The registered commands, in registration order, and the version text
/// that the version command copies.
pub struct CommandRegistry {
    pub entries: Vec<CommandEntry>,
    pub version_info: String,
}

impl CommandRegistry {
    /// A registry with no commands.
    pub fn new() -> (r: CommandRegistry)
        ensures
            r.entries@.len() == 0,
            r.version_info@.len() == 0,
    {
        CommandRegistry { entries: Vec::new(), version_info: String::new() }
    }

    /// Adds a command after the others.
    pub fn register(&mut self, entry: CommandEntry)
        ensures
            final(self).entries@ == old(self).entries@.push(entry),
            final(self).version_info == old(self).version_info,
    {
        self.entries.push(entry);
    }

    /// The registered commands, in registration order.
    pub fn commands(&self) -> (r: &Vec<CommandEntry>)
        ensures
            r@ == self.entries@,
    {
        &self.entries
    }
}

} // verus!
