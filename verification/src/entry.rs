//! One entry of a listing: a path and whether it is a directory.

use vstd::prelude::*;

verus! {

/// What an entry is: a directory that can be opened, or a file.
#[derive(Debug, Clone, Copy, PartialEq, Eq, Structural)]
pub enum EntryType {
    Directory,
    File,
}

/// One child of a directory that the browser shows.
///
/// The kind is fixed when the entry is made, from what the file system said
/// of the path at that moment.
#[derive(Debug, PartialEq, Eq)]
pub struct PasswordStoreEntry {
    pub path: String,
    pub entry_type: EntryType,
}

/// What the row of an entry can be told: that the user chose it.
#[derive(Debug, Clone, Copy, PartialEq, Eq, Structural)]
pub enum PasswordStoreEntryInput {
    Open,
}

/// What the row of an entry asks of the browser: to open the entry.
#[derive(Debug, PartialEq, Eq)]
pub enum PasswordStoreEntryOutput {
    Open(PasswordStoreEntry),
}

/// The mathematical value of a [`PasswordStoreEntry`].
pub struct EntryView {
    pub path: Seq<char>,
    pub entry_type: EntryType,
}

impl View for PasswordStoreEntry {
    type V = EntryView;

    open spec fn view(&self) -> EntryView {
        EntryView { path: self.path@, entry_type: self.entry_type }
    }
}

impl DeepView for PasswordStoreEntry {
    type V = EntryView;

    open spec fn deep_view(&self) -> EntryView {
        self@
    }
}

/// The kind of an entry whose path was, or was not, a directory.
pub open spec fn kind_of(is_dir: bool) -> EntryType {
    if is_dir {
        EntryType::Directory
    } else {
        EntryType::File
    }
}

impl Clone for PasswordStoreEntry {
    fn clone(&self) -> (copy: Self)
        ensures
            copy@ == self@,
    {
        PasswordStoreEntry { path: self.path.clone(), entry_type: self.entry_type }
    }
}

impl PasswordStoreEntry {
    /// Makes the entry for `path`, a directory exactly if `is_dir` says so.
    pub fn new(path: String, is_dir: bool) -> (entry: Self)
        ensures
            entry@ == (EntryView { path: path@, entry_type: kind_of(is_dir) }),
    {
        let entry_type = if is_dir {
            EntryType::Directory
        } else {
            EntryType::File
        };
        PasswordStoreEntry { path, entry_type }
    }

    /// Answers a message to the entry's row: being chosen, the entry asks to
    /// be opened, and hands over a copy of itself.
    pub fn update(&self, message: PasswordStoreEntryInput) -> (output: PasswordStoreEntryOutput)
        ensures
            output matches PasswordStoreEntryOutput::Open(entry) && entry@ == self@,
    {
        match message {
            PasswordStoreEntryInput::Open => PasswordStoreEntryOutput::Open(self.clone()),
        }
    }

    /// The text under which the entry is shown: its whole path, not only
    /// its last component.
    pub fn display(&self) -> (text: String)
        ensures
            text@ == self@.path,
    {
        self.path.clone()
    }
}

impl From<PasswordStoreEntry> for String {
    /// The path of the entry, as text.
    fn from(entry: PasswordStoreEntry) -> (text: String) {
        entry.path
    }
}

impl vstd::std_specs::convert::FromSpecImpl<PasswordStoreEntry> for String {
    open spec fn obeys_from_spec() -> bool {
        true
    }

    open spec fn from_spec(entry: PasswordStoreEntry) -> String {
        entry.path
    }
}

} // verus!
