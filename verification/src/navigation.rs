//! Where the browser stands: a fixed root and the directory now shown.

use vstd::prelude::*;
use crate::entry::{EntryType, EntryView, PasswordStoreEntry};
use crate::paths::{
    is_same_path, is_within, lemma_parent_is_within, lemma_within_itself, parent_of, parent_path,
    same_path,
};

verus! {

/// Why a navigation command changed nothing.
#[derive(Debug, Clone, Copy, PartialEq, Eq, Structural)]
pub enum NavError {
    /// The browser already shows the root; there is no way further up.
    AtRoot,
    /// The entry to open is a file.
    NotADirectory,
    /// The current directory is not the root and yet has no parent. This
    /// cannot happen while the current directory lies within the root.
    NoParent,
}

/// The root of the store and the directory now shown.
///
/// The root is set once, by [`NavigationState::init`], and no method changes
/// it afterwards.
#[derive(Debug)]
pub struct NavigationState {
    root: String,
    current: String,
}

/// The mathematical value of a [`NavigationState`].
pub struct NavView {
    pub root: Seq<char>,
    pub current: Seq<char>,
}

impl View for NavigationState {
    type V = NavView;

    closed spec fn view(&self) -> NavView {
        NavView { root: self.root@, current: self.current@ }
    }
}

/// One navigation command, as the laws below speak of it.
pub enum Step {
    TravelUp,
    Open(EntryView),
}

/// The state a browser starts in: at the root.
pub open spec fn initial(root: Seq<char>) -> NavView {
    NavView { root, current: root }
}

/// The browser shows the root itself.
pub open spec fn at_root(v: NavView) -> bool {
    same_path(v.current, v.root)
}

/// The current directory is the root or lies below it.
pub open spec fn contained(v: NavView) -> bool {
    is_within(v.root, v.current)
}

/// What going up one level reports.
pub open spec fn travel_up_result(v: NavView) -> Result<(), NavError> {
    if at_root(v) {
        Err(NavError::AtRoot)
    } else if parent_path(v.current) is None {
        Err(NavError::NoParent)
    } else {
        Ok(())
    }
}

/// The state after going up one level: the parent of the current directory
/// becomes current, unless the command is refused.
pub open spec fn after_travel_up(v: NavView) -> NavView {
    if travel_up_result(v) is Ok {
        NavView { root: v.root, current: parent_path(v.current).unwrap() }
    } else {
        v
    }
}

/// What opening `entry` reports.
pub open spec fn open_result(entry: EntryView) -> Result<(), NavError> {
    if entry.entry_type == EntryType::Directory {
        Ok(())
    } else {
        Err(NavError::NotADirectory)
    }
}

/// The state after opening `entry`: a directory becomes current, a file changes
/// nothing.
pub open spec fn after_open(v: NavView, entry: EntryView) -> NavView {
    if entry.entry_type == EntryType::Directory {
        NavView { root: v.root, current: entry.path }
    } else {
        v
    }
}

/// The state after one navigation command.
pub open spec fn after_step(v: NavView, step: Step) -> NavView {
    match step {
        Step::TravelUp => after_travel_up(v),
        Step::Open(entry) => after_open(v, entry),
    }
}

/// The state after a sequence of navigation commands, first to last.
pub open spec fn after_steps(v: NavView, steps: Seq<Step>) -> NavView
    decreases steps.len(),
{
    if steps.len() == 0 {
        v
    } else {
        after_step(after_steps(v, steps.drop_last()), steps.last())
    }
}

/// The command opens a directory: the only kind of command that can take
/// the browser to a path of the caller's choosing.
pub open spec fn opens_directory(step: Step) -> bool {
    step matches Step::Open(entry) && entry.entry_type == EntryType::Directory
}

impl NavigationState {
    /// Starts at `root`.
    pub fn init(root: String) -> (state: Self)
        ensures
            state@ == initial(root@),
            contained(state@),
    {
        proof {
            lemma_within_itself(root@);
        }
        let current = root.clone();
        NavigationState { root, current }
    }

    /// The root of the store.
    pub fn root(&self) -> (root: &String)
        ensures
            root@ == self@.root,
    {
        &self.root
    }

    /// The directory now shown.
    pub fn current(&self) -> (current: &String)
        ensures
            current@ == self@.current,
    {
        &self.current
    }

    /// Whether the browser shows the root.
    pub fn is_at_root(&self) -> (answer: bool)
        ensures
            answer == at_root(self@),
    {
        is_same_path(&self.current, &self.root)
    }

    /// Goes up one level, given the two facts that decide it: whether the
    /// current directory is the root, and what its parent is.
    ///
    /// At the root nothing changes. Elsewhere the parent becomes current; if
    /// there is none, nothing changes either.
    pub fn ascend(&mut self, at_root: bool, parent: Option<String>) -> (result: Result<
        (),
        NavError,
    >)
        ensures
            final(self)@.root == old(self)@.root,
            at_root ==> result == Err::<(), NavError>(NavError::AtRoot)
                && final(self)@ == old(self)@,
            !at_root && parent is None ==> result == Err::<(), NavError>(NavError::NoParent)
                && final(self)@ == old(self)@,
            !at_root && parent is Some ==> result == Ok::<(), NavError>(())
                && final(self)@.current == parent.unwrap()@,
    {
        if at_root {
            return Err(NavError::AtRoot);
        }
        match parent {
            Some(dir) => {
                self.current = dir;
                Ok(())
            },
            None => Err(NavError::NoParent),
        }
    }

    /// Goes up one level, unless the browser already shows the root.
    ///
    /// While the current directory lies within the root, the only refusal
    /// is [`NavError::AtRoot`], and every other call changes the current
    /// directory.
    pub fn travel_up(&mut self) -> (result: Result<(), NavError>)
        ensures
            result == travel_up_result(old(self)@),
            final(self)@ == after_travel_up(old(self)@),
            contained(old(self)@) ==> contained(final(self)@),
            contained(old(self)@) ==> (final(self)@ == old(self)@ <==> at_root(old(self)@)),
    {
        proof {
            lemma_travel_up_keeps_within(self@);
            lemma_travel_up_changes_nothing_only_at_root(self@);
        }
        let at_root = is_same_path(&self.current, &self.root);
        let parent = parent_of(&self.current);
        self.ascend(at_root, parent)
    }

    /// Makes `entry` the current directory, if it is a directory. A file is
    /// refused and changes nothing.
    ///
    /// The entry is taken as it is: that it lies within the root is not
    /// examined.
    pub fn open(&mut self, entry: PasswordStoreEntry) -> (result: Result<(), NavError>)
        ensures
            result == open_result(entry@),
            final(self)@ == after_open(old(self)@, entry@),
            final(self)@.root == old(self)@.root,
            entry@.entry_type == EntryType::Directory ==> final(self)@.current == entry@.path,
            entry@.entry_type != EntryType::Directory ==> final(self)@ == old(self)@,
            contained(old(self)@) && is_within(old(self)@.root, entry@.path) ==> contained(
                final(self)@,
            ),
    {
        match entry.entry_type {
            EntryType::Directory => {
                self.current = entry.path;
                Ok(())
            },
            EntryType::File => Err(NavError::NotADirectory),
        }
    }
}

/// No navigation command changes the root.
pub proof fn lemma_root_is_fixed(v: NavView, steps: Seq<Step>)
    ensures
        after_steps(v, steps).root == v.root,
    decreases steps.len(),
{
    if steps.len() > 0 {
        lemma_root_is_fixed(v, steps.drop_last());
    }
}

/// Going up from within the root stays within the root, and is never refused
/// for want of a parent.
pub proof fn lemma_travel_up_keeps_within(v: NavView)
    ensures
        contained(v) ==> contained(after_travel_up(v)),
        contained(v) ==> travel_up_result(v) != Err::<(), NavError>(NavError::NoParent),
{
    if contained(v) && !at_root(v) {
        lemma_parent_is_within(v.root, v.current);
    }
}

/// While the current directory lies within the root, going up changes nothing
/// when the browser shows the root, and only then.
pub proof fn lemma_travel_up_changes_nothing_only_at_root(v: NavView)
    ensures
        at_root(v) ==> after_travel_up(v) == v,
        contained(v) && after_travel_up(v) == v ==> at_root(v),
{
    if contained(v) && !at_root(v) {
        lemma_parent_is_within(v.root, v.current);
    }
}

/// Opening an entry makes the entry's path the current directory if the
/// entry is a directory, and changes nothing if it is not. So for an entry
/// of another path than the current one, the current directory changes
/// exactly if the entry is a directory.
pub proof fn lemma_open_moves_only_into_directories(v: NavView, entry: EntryView)
    ensures
        entry.entry_type == EntryType::Directory ==> after_open(v, entry).current == entry.path,
        entry.entry_type != EntryType::Directory ==> after_open(v, entry) == v,
        after_open(v, entry).current != v.current ==> entry.entry_type == EntryType::Directory,
        entry.path != v.current ==> (after_open(v, entry).current != v.current <==> entry.entry_type
            == EntryType::Directory),
{
}

/// From a state within the root, whatever sequence of commands is given, the
/// current directory ends within the root, as long as every directory that
/// is opened lies within the root.
pub proof fn lemma_current_ends_within_root(v: NavView, steps: Seq<Step>)
    requires
        contained(v),
        forall|i: int|
            0 <= i < steps.len() && opens_directory(#[trigger] steps[i]) ==> is_within(
                v.root,
                steps[i]->Open_0.path,
            ),
    ensures
        contained(after_steps(v, steps)),
    decreases steps.len(),
{
    if steps.len() > 0 {
        let before = after_steps(v, steps.drop_last());
        assert forall|i: int|
            0 <= i < steps.drop_last().len() && opens_directory(
                #[trigger] steps.drop_last()[i],
            ) implies is_within(v.root, steps.drop_last()[i]->Open_0.path) by {
            assert(steps.drop_last()[i] == steps[i]);
        }
        lemma_current_ends_within_root(v, steps.drop_last());
        lemma_root_is_fixed(v, steps.drop_last());
        match steps.last() {
            Step::TravelUp => {
                lemma_travel_up_keeps_within(before);
            },
            Step::Open(entry) => {
                if entry.entry_type == EntryType::Directory {
                    assert(opens_directory(steps[steps.len() - 1]));
                }
            },
        }
    }
}

/// From a state within the root, whatever sequence of commands is given, the
/// current directory is within the root after each of them: it is the root
/// or lies below it, at every point of the sequence. This holds as long as
/// every directory that is opened lies within the root; an entry of another
/// place, once opened, is the current directory.
pub proof fn lemma_current_stays_within_root(v: NavView, steps: Seq<Step>)
    requires
        contained(v),
        forall|i: int|
            0 <= i < steps.len() && opens_directory(#[trigger] steps[i]) ==> is_within(
                v.root,
                steps[i]->Open_0.path,
            ),
    ensures
        forall|k: int|
            0 <= k <= steps.len() ==> contained(#[trigger] after_steps(v, steps.take(k))),
{
    assert forall|k: int| 0 <= k <= steps.len() implies contained(
        #[trigger] after_steps(v, steps.take(k)),
    ) by {
        let done = steps.take(k);
        assert forall|i: int|
            0 <= i < done.len() && opens_directory(#[trigger] done[i]) implies is_within(
            v.root,
            done[i]->Open_0.path,
        ) by {
            assert(done[i] == steps[i]);
        }
        lemma_current_ends_within_root(v, done);
    }
}

} // verus!
