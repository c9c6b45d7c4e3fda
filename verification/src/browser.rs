//! The browser as a whole: its commands, and what each of them does to the
//! state and asks of the caller.
//!
//! The browser does no reading itself. A command that needs a directory
//! listed answers with [`Action::List`]; the caller reads that directory and
//! hands what it found to [`App::sync`], which replaces the visible list.

use vstd::prelude::*;
use crate::config::{default_store_root, resolve_store_root, store_root_from, ConfigError};
use crate::entry::{EntryView, PasswordStoreEntry, PasswordStoreEntryOutput};
use crate::listing::{
    lemma_listed_entries_are_within, list, visible_entries, ChildView, DirChild, ListError,
};
use crate::navigation::{
    after_open, after_travel_up, contained, initial, lemma_travel_up_keeps_within, open_result,
    travel_up_result, NavError, NavView, NavigationState,
};
use crate::paths::{is_within, lemma_within_itself, parent_path};

verus! {

/// A command to the browser.
#[derive(Debug, PartialEq, Eq)]
pub enum Msg {
    /// Count one up.
    Increment,
    /// Count one down.
    Decrement,
    /// Go up one level, unless the root is shown.
    TravelUp,
    /// Go into this entry, if it is a directory.
    OpenPath(PasswordStoreEntry),
    /// Bring the visible list up to date with the current directory.
    UpdateEntries,
}

/// What the caller is to do after a command.
#[derive(Debug, PartialEq, Eq)]
pub enum Action {
    /// Nothing.
    Idle,
    /// Read this directory and hand what was read to [`App::sync`].
    List(String),
    /// Nothing but report: the command was refused and changed nothing.
    Rejected(NavError),
}

/// The mathematical value of an [`Action`].
pub enum ActionView {
    Idle,
    List(Seq<char>),
    Rejected(NavError),
}

impl View for Action {
    type V = ActionView;

    open spec fn view(&self) -> ActionView {
        match self {
            Action::Idle => ActionView::Idle,
            Action::List(dir) => ActionView::List(dir@),
            Action::Rejected(why) => ActionView::Rejected(*why),
        }
    }
}

/// The state of the browser: a counter, where it stands in the store, and
/// the entries it shows.
#[derive(Debug)]
pub struct App {
    counter: u8,
    navigation: NavigationState,
    visible_files: Vec<PasswordStoreEntry>,
}

/// The mathematical value of an [`App`].
pub struct AppView {
    pub counter: u8,
    pub navigation: NavView,
    pub visible_files: Seq<EntryView>,
}

impl View for App {
    type V = AppView;

    closed spec fn view(&self) -> AppView {
        AppView {
            counter: self.counter,
            navigation: self.navigation@,
            visible_files: self.visible_files.deep_view(),
        }
    }
}

impl From<PasswordStoreEntryOutput> for Msg {
    /// The command that a request of an entry's row stands for.
    fn from(output: PasswordStoreEntryOutput) -> (msg: Msg) {
        match output {
            PasswordStoreEntryOutput::Open(entry) => Msg::OpenPath(entry),
        }
    }
}

impl vstd::std_specs::convert::FromSpecImpl<PasswordStoreEntryOutput> for Msg {
    open spec fn obeys_from_spec() -> bool {
        true
    }

    open spec fn from_spec(output: PasswordStoreEntryOutput) -> Msg {
        match output {
            PasswordStoreEntryOutput::Open(entry) => Msg::OpenPath(entry),
        }
    }
}

/// A browser that has just started: at the root, showing nothing yet.
pub open spec fn started(counter: u8, root: Seq<char>) -> AppView {
    AppView { counter, navigation: initial(root), visible_files: Seq::empty() }
}

/// The counter after counting one up: past the largest value it starts
/// again at zero.
pub open spec fn counted_up(counter: u8) -> u8 {
    if counter == u8::MAX {
        0
    } else {
        (counter + 1) as u8
    }
}

/// The counter after counting one down: below zero it starts again at the
/// largest value.
pub open spec fn counted_down(counter: u8) -> u8 {
    if counter == 0 {
        u8::MAX
    } else {
        (counter - 1) as u8
    }
}

/// What the caller is to do after a navigation command with this outcome,
/// the browser then standing at `current`.
pub open spec fn action_after(
    current: Seq<char>,
    outcome: Result<(), NavError>,
) -> ActionView {
    match outcome {
        Ok(()) => ActionView::List(current),
        Err(why) => ActionView::Rejected(why),
    }
}

/// The state after a command. Only the navigation commands and the counter
/// commands change it; the visible list changes in [`App::sync`] alone.
pub open spec fn after_update(v: AppView, msg: Msg) -> AppView {
    match msg {
        Msg::Increment => AppView { counter: counted_up(v.counter), ..v },
        Msg::Decrement => AppView { counter: counted_down(v.counter), ..v },
        Msg::TravelUp => AppView { navigation: after_travel_up(v.navigation), ..v },
        Msg::OpenPath(entry) => AppView { navigation: after_open(v.navigation, entry@), ..v },
        Msg::UpdateEntries => v,
    }
}

/// What a command asks of the caller.
pub open spec fn action_of(v: AppView, msg: Msg) -> ActionView {
    match msg {
        Msg::Increment => ActionView::Idle,
        Msg::Decrement => ActionView::Idle,
        Msg::TravelUp => action_after(
            after_travel_up(v.navigation).current,
            travel_up_result(v.navigation),
        ),
        Msg::OpenPath(entry) => action_after(
            after_open(v.navigation, entry@).current,
            open_result(entry@),
        ),
        Msg::UpdateEntries => ActionView::List(v.navigation.current),
    }
}

/// The state after a listing was handed over: a directory that could not be
/// read leaves the state as it was; otherwise the listing of what was read
/// takes the place of the visible list.
pub open spec fn after_sync(v: AppView, children: Option<Seq<ChildView>>) -> AppView {
    match children {
        Some(read) => AppView { visible_files: visible_entries(read), ..v },
        None => v,
    }
}

/// What handing over a listing reports.
pub open spec fn sync_result(children: Option<Seq<ChildView>>) -> Result<(), ListError> {
    match children {
        Some(_) => Ok(()),
        None => Err(ListError::Unreadable),
    }
}

/// One thing that happens to the browser: a command is carried out, or what
/// reading a directory gave is handed over.
pub enum Event {
    Command(Msg),
    Listed(Option<Seq<ChildView>>),
}

/// The state after an event.
pub open spec fn after_event(v: AppView, event: Event) -> AppView {
    match event {
        Event::Command(msg) => after_update(v, msg),
        Event::Listed(children) => after_sync(v, children),
    }
}

/// The state after a sequence of events, first to last.
pub open spec fn after_events(v: AppView, events: Seq<Event>) -> AppView
    decreases events.len(),
{
    if events.len() == 0 {
        v
    } else {
        after_event(after_events(v, events.drop_last()), events.last())
    }
}

/// All that the browser can reach lies within the root: the current
/// directory, and every entry of the visible list.
pub open spec fn confined(v: AppView) -> bool {
    &&& contained(v.navigation)
    &&& forall|i: int|
        0 <= i < v.visible_files.len() ==> is_within(
            v.navigation.root,
            #[trigger] v.visible_files[i].path,
        )
}

/// The event is one that a running browser gives rise to: an entry that is
/// opened was chosen from the visible list, and a listing that is handed
/// over holds children of the current directory.
pub open spec fn arises(v: AppView, event: Event) -> bool {
    match event {
        Event::Command(Msg::OpenPath(entry)) => v.visible_files.contains(entry@),
        Event::Command(_) => true,
        Event::Listed(Some(children)) => forall|i: int|
            0 <= i < children.len() ==> parent_path(#[trigger] children[i].path) == Some(
                v.navigation.current,
            ),
        Event::Listed(None) => true,
    }
}

/// Each event of the sequence arises in the state that the events before it
/// have led to.
pub open spec fn arise_in_turn(v: AppView, events: Seq<Event>) -> bool
    decreases events.len(),
{
    events.len() > 0 ==> arise_in_turn(v, events.drop_last()) && arises(
        after_events(v, events.drop_last()),
        events.last(),
    )
}

impl App {
    /// A browser at `root`, showing nothing yet, and the first thing to do:
    /// list the root.
    pub fn at(counter: u8, root: String) -> (start: (App, Action))
        ensures
            start.0@ == started(counter, root@),
            start.1@ == ActionView::List(root@),
            confined(start.0@),
    {
        proof {
            lemma_started_is_confined(counter, root@);
        }
        let first = Action::List(root.clone());
        let app = App {
            counter,
            navigation: NavigationState::init(root),
            visible_files: Vec::new(),
        };
        assert(app.visible_files.deep_view() =~= Seq::empty());
        (app, first)
    }

    /// Starts the browser from the directory the user named, if any, and the
    /// home directory, if known.
    ///
    /// It starts at the named directory, or else at the default store below
    /// the home directory; with neither it cannot start.
    pub fn init_from(counter: u8, store_dir: Option<String>, home: Option<String>) -> (result:
        Result<(App, Action), ConfigError>)
        ensures
            store_dir matches Some(dir) ==> (result matches Ok(start) && start.0@ == started(
                counter,
                dir@,
            ) && start.1@ == ActionView::List(dir@)),
            store_dir is None && home is Some ==> (result matches Ok(start) && start.0@
                == started(counter, default_store_root(home.unwrap()@)) && start.1@
                == ActionView::List(default_store_root(home.unwrap()@))),
            store_dir is None && home is None ==> (result matches Err(e) && e
                == ConfigError::HomeUnavailable),
            result matches Ok(start) ==> confined(start.0@),
    {
        match store_root_from(store_dir, home) {
            Ok(root) => Ok(App::at(counter, root)),
            Err(e) => Err(e),
        }
    }

    /// Starts the browser from the directory the user named, if any; the home
    /// directory is looked up only where none was named.
    ///
    /// With a named directory this cannot fail. Without one the outcome
    /// rests on the lookup: the browser starts at the default store below
    /// some home directory, or the lookup found none.
    pub fn init(counter: u8, store_dir: Option<String>) -> (result: Result<
        (App, Action),
        ConfigError,
    >)
        ensures
            store_dir matches Some(dir) ==> (result matches Ok(start) && start.0@ == started(
                counter,
                dir@,
            ) && start.1@ == ActionView::List(dir@)),
            store_dir is None ==> (result matches Ok(start) ==> exists|home: Seq<char>|
                start.0@ == started(counter, #[trigger] default_store_root(home)) && start.1@
                    == ActionView::List(default_store_root(home))),
            result matches Err(e) ==> store_dir is None && e == ConfigError::HomeUnavailable,
            result matches Ok(start) ==> confined(start.0@),
    {
        match resolve_store_root(store_dir) {
            Ok(root) => Ok(App::at(counter, root)),
            Err(e) => Err(e),
        }
    }

    /// The counter.
    pub fn counter(&self) -> (counter: u8)
        ensures
            counter == self@.counter,
    {
        self.counter
    }

    /// The root of the store.
    pub fn store_root(&self) -> (root: &String)
        ensures
            root@ == self@.navigation.root,
    {
        self.navigation.root()
    }

    /// The directory now shown.
    pub fn current_dir(&self) -> (current: &String)
        ensures
            current@ == self@.navigation.current,
    {
        self.navigation.current()
    }

    /// The entries now shown, in their order.
    pub fn visible_files(&self) -> (entries: &Vec<PasswordStoreEntry>)
        ensures
            entries.deep_view() == self@.visible_files,
    {
        &self.visible_files
    }

    /// What the caller is to do after a navigation command with this
    /// outcome: list the directory the browser now stands at, or report the
    /// refusal.
    pub fn after_navigation(&self, outcome: Result<(), NavError>) -> (action: Action)
        ensures
            action@ == action_after(self@.navigation.current, outcome),
    {
        match outcome {
            Ok(()) => Action::List(self.navigation.current().clone()),
            Err(why) => Action::Rejected(why),
        }
    }

    /// Carries out a command and says what the caller is to do next.
    ///
    /// The counter commands count, wrapping at the ends. `TravelUp` and
    /// `OpenPath` move through the store; where they succeed the new
    /// directory is to be listed, where they are refused nothing changes.
    /// `UpdateEntries` changes nothing and asks for the current directory to
    /// be listed.
    pub fn update(&mut self, msg: Msg) -> (action: Action)
        ensures
            final(self)@ == after_update(old(self)@, msg),
            action@ == action_of(old(self)@, msg),
            final(self)@.navigation.root == old(self)@.navigation.root,
            final(self)@.visible_files == old(self)@.visible_files,
            confined(old(self)@) && arises(old(self)@, Event::Command(msg)) ==> confined(
                final(self)@,
            ),
    {
        proof {
            if confined(self@) && arises(self@, Event::Command(msg)) {
                lemma_event_keeps_confined(self@, Event::Command(msg));
            }
        }
        match msg {
            Msg::Increment => {
                self.counter = self.counter.wrapping_add(1);
                Action::Idle
            },
            Msg::Decrement => {
                self.counter = self.counter.wrapping_sub(1);
                Action::Idle
            },
            Msg::TravelUp => {
                let outcome = self.navigation.travel_up();
                self.after_navigation(outcome)
            },
            Msg::OpenPath(entry) => {
                let outcome = self.navigation.open(entry);
                self.after_navigation(outcome)
            },
            Msg::UpdateEntries => Action::List(self.navigation.current().clone()),
        }
    }

    /// Takes what reading a directory gave, `None` if it could not be read,
    /// and brings the visible list up to date.
    ///
    /// On success the old list is gone and the listing of what was read
    /// stands in its place. On failure the list stays as it was and the error
    /// is returned.
    pub fn sync(&mut self, children: Option<Vec<DirChild>>) -> (result: Result<(), ListError>)
        ensures
            result == sync_result(children.deep_view()),
            final(self)@ == after_sync(old(self)@, children.deep_view()),
            final(self)@.navigation == old(self)@.navigation,
            final(self)@.counter == old(self)@.counter,
            confined(old(self)@) && arises(old(self)@, Event::Listed(children.deep_view()))
                ==> confined(final(self)@),
    {
        proof {
            if confined(self@) && arises(self@, Event::Listed(children.deep_view())) {
                lemma_event_keeps_confined(self@, Event::Listed(children.deep_view()));
            }
        }
        match list(children) {
            Ok(entries) => {
                self.visible_files = entries;
                Ok(())
            },
            Err(e) => Err(e),
        }
    }
}

/// Handing over the same listing twice leaves the browser as handing it over
/// once does: the second time changes nothing.
pub proof fn lemma_sync_is_idempotent(v: AppView, children: Option<Seq<ChildView>>)
    ensures
        after_sync(after_sync(v, children), children) == after_sync(v, children),
{
}

/// The visible list after a listing was taken in depends on the listing
/// alone, not on what was shown before.
pub proof fn lemma_sync_forgets_old_list(v: AppView, w: AppView, read: Seq<ChildView>)
    ensures
        after_sync(v, Some(read)).visible_files == after_sync(w, Some(read)).visible_files,
        after_sync(v, Some(read)).visible_files == visible_entries(read),
{
}

/// A browser that has just started is confined to its root.
pub proof fn lemma_started_is_confined(counter: u8, root: Seq<char>)
    ensures
        confined(started(counter, root)),
{
    lemma_within_itself(root);
}

/// An event that arises in a confined browser leaves it confined, with the
/// root it had.
pub proof fn lemma_event_keeps_confined(v: AppView, event: Event)
    requires
        confined(v),
        arises(v, event),
    ensures
        confined(after_event(v, event)),
        after_event(v, event).navigation.root == v.navigation.root,
{
    let after = after_event(v, event);
    match event {
        Event::Command(Msg::TravelUp) => {
            lemma_travel_up_keeps_within(v.navigation);
        },
        Event::Command(Msg::OpenPath(entry)) => {
            let i = choose|i: int| 0 <= i < v.visible_files.len() && v.visible_files[i] == entry@;
            assert(is_within(v.navigation.root, v.visible_files[i].path));
        },
        Event::Command(_) => {},
        Event::Listed(Some(children)) => {
            assert forall|i: int| 0 <= i < after.visible_files.len() implies is_within(
                after.navigation.root,
                #[trigger] after.visible_files[i].path,
            ) by {
                assert(visible_entries(children).contains(after.visible_files[i]));
                lemma_listed_entries_are_within(
                    v.navigation.root,
                    v.navigation.current,
                    children,
                    after.visible_files[i],
                );
            }
        },
        Event::Listed(None) => {},
    }
}

/// From its start on, whatever happens, the browser stays confined to its
/// root: the current directory is the root or lies below it, and so does
/// every entry shown. This holds for every sequence of events that arise in
/// turn: commands of any kind, where the entries opened are chosen from the
/// list, and listings of the current directory, readable or not.
pub proof fn lemma_browser_stays_confined(v: AppView, events: Seq<Event>)
    requires
        confined(v),
        arise_in_turn(v, events),
    ensures
        confined(after_events(v, events)),
        after_events(v, events).navigation.root == v.navigation.root,
    decreases events.len(),
{
    if events.len() > 0 {
        lemma_browser_stays_confined(v, events.drop_last());
        lemma_event_keeps_confined(after_events(v, events.drop_last()), events.last());
    }
}

} // verus!
