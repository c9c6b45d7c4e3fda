//! Which children of a directory the browser shows.
//!
//! Hidden children are never shown. Of the others, directories are shown,
//! and files whose name ends in the suffix of a secret. What is shown keeps
//! the order in which the directory was read.

use vstd::prelude::*;
use crate::entry::{kind_of, EntryType, EntryView, PasswordStoreEntry};
use crate::paths::{base_name, file_name_of, is_within, lemma_child_is_within, parent_path};

verus! {

/// Why a directory could not be listed.
#[derive(Debug, Clone, Copy, PartialEq, Eq, Structural)]
pub enum ListError {
    /// The directory could not be opened or read through.
    Unreadable,
}

/// One child of a directory as the file system gave it: its path, and whether
/// it was a directory when the listing was made.
#[derive(Debug, PartialEq, Eq)]
pub struct DirChild {
    pub path: String,
    pub is_dir: bool,
}

/// The mathematical value of a [`DirChild`].
pub struct ChildView {
    pub path: Seq<char>,
    pub is_dir: bool,
}

impl View for DirChild {
    type V = ChildView;

    open spec fn view(&self) -> ChildView {
        ChildView { path: self.path@, is_dir: self.is_dir }
    }
}

impl DeepView for DirChild {
    type V = ChildView;

    open spec fn deep_view(&self) -> ChildView {
        self@
    }
}

impl From<DirChild> for PasswordStoreEntry {
    /// The entry of a child: a directory exactly if the child was one when
    /// the listing was made.
    fn from(child: DirChild) -> (entry: PasswordStoreEntry) {
        let entry_type = if child.is_dir {
            EntryType::Directory
        } else {
            EntryType::File
        };
        PasswordStoreEntry { path: child.path, entry_type }
    }
}

impl vstd::std_specs::convert::FromSpecImpl<DirChild> for PasswordStoreEntry {
    open spec fn obeys_from_spec() -> bool {
        true
    }

    open spec fn from_spec(child: DirChild) -> PasswordStoreEntry {
        PasswordStoreEntry { path: child.path, entry_type: kind_of(child.is_dir) }
    }
}

/// The character that marks a name as hidden when it comes first.
pub open spec fn hidden_marker() -> char {
    '.'
}

/// The ending that marks a file as one of the store's secrets.
pub open spec fn secret_suffix() -> Seq<char> {
    seq!['.', 'g', 'p', 'g']
}

/// The name starts with the hidden marker.
pub open spec fn is_hidden(name: Seq<char>) -> bool {
    name.len() > 0 && name[0] == hidden_marker()
}

/// The name ends with the suffix of a secret.
pub open spec fn is_secret(name: Seq<char>) -> bool {
    name.len() >= secret_suffix().len() && name.subrange(
        name.len() - secret_suffix().len(),
        name.len() as int,
    ) == secret_suffix()
}

/// The rule of the listing, on a child's name and kind.
pub open spec fn name_is_shown(name: Seq<char>, is_dir: bool) -> bool {
    !is_hidden(name) && (is_dir || is_secret(name))
}

/// The rule of the listing, on a child.
pub open spec fn is_shown(child: ChildView) -> bool {
    name_is_shown(base_name(child.path), child.is_dir)
}

/// The entry that stands for a child in the listing.
pub open spec fn entry_for(child: ChildView) -> EntryView {
    EntryView { path: child.path, entry_type: kind_of(child.is_dir) }
}

/// The listing of a directory with these children: the children that are
/// shown, each as its entry, in the order of `children`.
pub open spec fn visible_entries(children: Seq<ChildView>) -> Seq<EntryView> {
    children.filter(|child: ChildView| is_shown(child)).map_values(
        |child: ChildView| entry_for(child),
    )
}

/// Whether a child with this name and kind is shown.
pub fn is_visible_name(name: &str, is_dir: bool) -> (shown: bool)
    ensures
        shown == name_is_shown(name@, is_dir),
{
    let len = name.unicode_len();
    if len > 0 && name.get_char(0) == '.' {
        return false;
    }
    if is_dir {
        return true;
    }
    if len < 4 {
        return false;
    }
    let shown = name.get_char(len - 4) == '.' && name.get_char(len - 3) == 'g' && name.get_char(
        len - 2,
    ) == 'p' && name.get_char(len - 1) == 'g';
    proof {
        let tail = name@.subrange(len - 4, len as int);
        assert(shown <==> tail =~= secret_suffix());
    }
    shown
}

/// Whether a child is shown. Its name is the last component of its path,
/// and empty where the path has none.
pub fn is_visible(child: &DirChild) -> (shown: bool)
    ensures
        shown == is_shown(child@),
{
    match file_name_of(&child.path) {
        Some(name) => is_visible_name(name.as_str(), child.is_dir),
        None => {
            proof {
                reveal_strlit("");
                assert(""@ =~= Seq::<char>::empty());
            }
            is_visible_name("", child.is_dir)
        },
    }
}

/// Lists a directory from what reading it gave: `None` if it could not be
/// read, else its children in the order read.
pub fn list(children: Option<Vec<DirChild>>) -> (result: Result<
    Vec<PasswordStoreEntry>,
    ListError,
>)
    ensures
        children is None ==> (result matches Err(e) && e == ListError::Unreadable),
        children matches Some(read) ==> (result matches Ok(entries) && entries.deep_view()
            == visible_entries(read.deep_view())),
{
    match children {
        None => Err(ListError::Unreadable),
        Some(read) => Ok(list_children(&read)),
    }
}

/// The listing of a directory with these children.
pub fn list_children(children: &Vec<DirChild>) -> (entries: Vec<PasswordStoreEntry>)
    ensures
        entries.deep_view() == visible_entries(children.deep_view()),
{
    let mut entries: Vec<PasswordStoreEntry> = Vec::new();
    let mut i: usize = 0;
    proof {
        lemma_nothing_listed();
        assert(children.deep_view().take(0) =~= Seq::empty());
        assert(entries.deep_view() =~= Seq::empty());
    }
    while i < children.len()
        invariant
            i <= children.len(),
            entries.deep_view() == visible_entries(children.deep_view().take(i as int)),
        decreases children.len() - i,
    {
        let child = &children[i];
        let ghost before = entries.deep_view();
        proof {
            let all = children.deep_view();
            assert(all.take(i + 1) =~= all.take(i as int).push(child@));
            lemma_listing_grows(all.take(i as int), child@);
        }
        if is_visible(child) {
            entries.push(PasswordStoreEntry::new(child.path.clone(), child.is_dir));
            assert(entries.deep_view() =~= before.push(entry_for(child@)));
        }
        i += 1;
    }
    proof {
        assert(children.deep_view().take(i as int) =~= children.deep_view());
    }
    entries
}

/// A directory without children has an empty listing.
pub proof fn lemma_nothing_listed()
    ensures
        visible_entries(Seq::empty()) == Seq::<EntryView>::empty(),
{
    reveal(Seq::filter);
    assert(visible_entries(Seq::empty()) =~= Seq::<EntryView>::empty());
}

/// One more child at the end adds its entry at the end of the listing if
/// the child is shown, and nothing if it is not.
pub proof fn lemma_listing_grows(children: Seq<ChildView>, child: ChildView)
    ensures
        visible_entries(children.push(child)) == if is_shown(child) {
            visible_entries(children).push(entry_for(child))
        } else {
            visible_entries(children)
        },
{
    reveal(Seq::filter);
    assert(children.push(child).drop_last() =~= children);
    if is_shown(child) {
        assert(visible_entries(children.push(child)) =~= visible_entries(children).push(
            entry_for(child),
        ));
    }
}

/// The listing holds the entries of the children that are shown, and no
/// others: an entry stands in it exactly if it is the entry of some child
/// that the rule shows.
pub proof fn lemma_listing_is_exact(children: Seq<ChildView>, entry: EntryView)
    ensures
        visible_entries(children).contains(entry) <==> exists|i: int|
            0 <= i < children.len() && is_shown(#[trigger] children[i]) && entry_for(children[i])
                == entry,
    decreases children.len(),
{
    if children.len() == 0 {
        lemma_nothing_listed();
        assert(children =~= Seq::empty());
    } else {
        let front = children.drop_last();
        let last = children.last();
        assert(children =~= front.push(last));
        lemma_listing_grows(front, last);
        lemma_listing_is_exact(front, entry);
        let listed = visible_entries(children);
        let listed_front = visible_entries(front);
        if listed.contains(entry) {
            let k = choose|k: int| 0 <= k < listed.len() && listed[k] == entry;
            if is_shown(last) && k == listed.len() - 1 {
                assert(is_shown(children[children.len() - 1]));
            } else {
                assert(listed_front[k] == entry);
                let i = choose|i: int|
                    0 <= i < front.len() && is_shown(#[trigger] front[i]) && entry_for(front[i])
                        == entry;
                assert(is_shown(children[i]));
            }
        }
        if exists|i: int|
            0 <= i < children.len() && is_shown(#[trigger] children[i]) && entry_for(children[i])
                == entry {
            let i = choose|i: int|
                0 <= i < children.len() && is_shown(#[trigger] children[i]) && entry_for(
                    children[i],
                ) == entry;
            if i == children.len() - 1 {
                assert(listed[listed.len() - 1] == entry);
            } else {
                assert(is_shown(front[i]));
                let k = choose|k: int| 0 <= k < listed_front.len() && listed_front[k] == entry;
                assert(listed[k] == entry);
            }
        }
    }
}

/// Where a directory lies within `root` and `children` are children of it,
/// every entry of its listing lies within `root` too: opening an entry of
/// the listing never leaves the root.
pub proof fn lemma_listed_entries_are_within(
    root: Seq<char>,
    dir: Seq<char>,
    children: Seq<ChildView>,
    entry: EntryView,
)
    requires
        is_within(root, dir),
        forall|i: int|
            0 <= i < children.len() ==> parent_path(#[trigger] children[i].path) == Some(dir),
        visible_entries(children).contains(entry),
    ensures
        is_within(root, entry.path),
{
    lemma_listing_is_exact(children, entry);
    let i = choose|i: int|
        0 <= i < children.len() && is_shown(#[trigger] children[i]) && entry_for(children[i])
            == entry;
    lemma_child_is_within(root, dir, children[i].path);
}

} // verus!
