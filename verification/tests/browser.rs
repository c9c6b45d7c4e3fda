use store_browser::{
    Action, App, ConfigError, DirChild, EntryType, ListError, Msg, NavError, PasswordStoreEntry,
    PasswordStoreEntryInput, PasswordStoreEntryOutput,
};

fn child(path: &str, is_dir: bool) -> DirChild {
    DirChild { path: path.to_string(), is_dir }
}

fn entry(path: &str, entry_type: EntryType) -> PasswordStoreEntry {
    PasswordStoreEntry { path: path.to_string(), entry_type }
}

fn started(counter: u8, root: &str) -> App {
    let (app, first) = App::init(counter, Some(root.to_string())).unwrap();
    assert_eq!(first, Action::List(root.to_string()));
    app
}

fn store_contents() -> Vec<DirChild> {
    vec![
        child("/store/a", true),
        child("/store/.secret.gpg", false),
        child("/store/b.gpg", false),
        child("/store/c.txt", false),
    ]
}

#[test]
fn the_browser_starts_at_the_root_and_asks_for_its_listing() {
    let (app, first) = App::init(3, Some("/store".to_string())).unwrap();
    assert_eq!(first, Action::List("/store".to_string()));
    assert_eq!(app.counter(), 3);
    assert_eq!(app.store_root(), "/store");
    assert_eq!(app.current_dir(), "/store");
    assert!(app.visible_files().is_empty());
}

#[test]
fn the_browser_starts_below_the_home_directory_by_default() {
    let (app, first) = App::init_from(0, None, Some("/home/alice".to_string())).unwrap();
    assert_eq!(first, Action::List("/home/alice/.password-store".to_string()));
    assert_eq!(app.store_root(), "/home/alice/.password-store");
    assert_eq!(app.current_dir(), "/home/alice/.password-store");
}

#[test]
fn a_named_store_directory_wins_over_the_home_directory() {
    let (app, first) =
        App::init_from(0, Some("/srv/pass".to_string()), Some("/home/alice".to_string())).unwrap();
    assert_eq!(first, Action::List("/srv/pass".to_string()));
    assert_eq!(app.store_root(), "/srv/pass");
    let (app, _) = App::init_from(0, Some("/srv/pass".to_string()), None).unwrap();
    assert_eq!(app.store_root(), "/srv/pass");
}

#[test]
fn the_browser_cannot_start_without_a_store_or_a_home() {
    assert_eq!(App::init_from(0, None, None).err(), Some(ConfigError::HomeUnavailable));
}

#[test]
fn starting_without_a_named_store_rests_on_the_home_directory() {
    match App::init(0, None) {
        Ok((app, first)) => {
            assert!(app.store_root().ends_with("/.password-store"));
            assert_eq!(app.current_dir(), app.store_root());
            assert_eq!(first, Action::List(app.store_root().clone()));
        }
        Err(e) => assert_eq!(e, ConfigError::HomeUnavailable),
    }
}

#[test]
fn update_entries_shows_directories_and_secrets_of_the_store() {
    let mut app = started(0, "/store");
    assert_eq!(app.update(Msg::UpdateEntries), Action::List("/store".to_string()));
    assert_eq!(app.sync(Some(store_contents())), Ok(()));
    assert_eq!(
        app.visible_files(),
        &vec![entry("/store/a", EntryType::Directory), entry("/store/b.gpg", EntryType::File)]
    );
    assert_eq!(app.current_dir(), "/store");
}

#[test]
fn update_entries_twice_gives_the_same_list() {
    let mut app = started(0, "/store");
    assert_eq!(app.update(Msg::UpdateEntries), Action::List("/store".to_string()));
    assert_eq!(app.sync(Some(store_contents())), Ok(()));
    let first = app.visible_files().clone();
    assert_eq!(app.update(Msg::UpdateEntries), Action::List("/store".to_string()));
    assert_eq!(app.sync(Some(store_contents())), Ok(()));
    assert_eq!(app.visible_files(), &first);
    assert_eq!(first.len(), 2);
}

#[test]
fn a_new_listing_replaces_the_old_one() {
    let mut app = started(0, "/store");
    assert_eq!(app.sync(Some(store_contents())), Ok(()));
    assert_eq!(app.sync(Some(vec![child("/store/a/x.gpg", false)])), Ok(()));
    assert_eq!(app.visible_files(), &vec![entry("/store/a/x.gpg", EntryType::File)]);
    assert_eq!(app.sync(Some(Vec::new())), Ok(()));
    assert!(app.visible_files().is_empty());
}

#[test]
fn an_unreadable_directory_leaves_the_list_and_is_reported() {
    let mut app = started(9, "/store");
    assert_eq!(app.sync(Some(store_contents())), Ok(()));
    let before = app.visible_files().clone();
    assert_eq!(app.sync(None), Err(ListError::Unreadable));
    assert_eq!(app.visible_files(), &before);
    assert_eq!(app.current_dir(), "/store");
    assert_eq!(app.counter(), 9);
}

#[test]
fn travel_up_at_the_root_is_rejected() {
    let mut app = started(0, "/store");
    assert_eq!(app.sync(Some(store_contents())), Ok(()));
    assert_eq!(app.update(Msg::TravelUp), Action::Rejected(NavError::AtRoot));
    assert_eq!(app.current_dir(), "/store");
    assert_eq!(app.store_root(), "/store");
    assert_eq!(app.visible_files().len(), 2);
}

#[test]
fn open_path_goes_into_a_directory_and_asks_for_its_listing() {
    let mut app = started(0, "/store");
    assert_eq!(app.sync(Some(store_contents())), Ok(()));
    let chosen = app.visible_files()[0].clone();
    assert_eq!(app.update(Msg::OpenPath(chosen)), Action::List("/store/a".to_string()));
    assert_eq!(app.current_dir(), "/store/a");
    assert_eq!(app.store_root(), "/store");
    assert_eq!(app.visible_files().len(), 2);
}

#[test]
fn open_path_on_a_file_is_rejected() {
    let mut app = started(0, "/store");
    assert_eq!(app.sync(Some(store_contents())), Ok(()));
    let chosen = app.visible_files()[1].clone();
    assert_eq!(app.update(Msg::OpenPath(chosen)), Action::Rejected(NavError::NotADirectory));
    assert_eq!(app.current_dir(), "/store");
    let folder = entry("/store/folder", EntryType::File);
    assert_eq!(app.update(Msg::OpenPath(folder)), Action::Rejected(NavError::NotADirectory));
    assert_eq!(app.current_dir(), "/store");
}

#[test]
fn travel_up_from_a_folder_asks_for_the_listing_of_its_parent() {
    let mut app = started(0, "/store");
    let folder = entry("/store/folder", EntryType::Directory);
    assert_eq!(app.update(Msg::OpenPath(folder)), Action::List("/store/folder".to_string()));
    assert_eq!(app.update(Msg::TravelUp), Action::List("/store".to_string()));
    assert_eq!(app.current_dir(), "/store");
    assert_eq!(app.update(Msg::TravelUp), Action::Rejected(NavError::AtRoot));
}

#[test]
fn travel_up_without_a_parent_is_rejected() {
    let mut app = started(0, "/store");
    let outside = entry("/", EntryType::Directory);
    assert_eq!(app.update(Msg::OpenPath(outside)), Action::List("/".to_string()));
    assert_eq!(app.update(Msg::TravelUp), Action::Rejected(NavError::NoParent));
    assert_eq!(app.current_dir(), "/");
}

#[test]
fn the_counter_counts_and_wraps() {
    let mut app = started(254, "/store");
    assert_eq!(app.update(Msg::Increment), Action::Idle);
    assert_eq!(app.counter(), 255);
    assert_eq!(app.update(Msg::Increment), Action::Idle);
    assert_eq!(app.counter(), 0);
    assert_eq!(app.update(Msg::Decrement), Action::Idle);
    assert_eq!(app.counter(), 255);
    assert_eq!(app.update(Msg::Decrement), Action::Idle);
    assert_eq!(app.counter(), 254);
    assert_eq!(app.current_dir(), "/store");
}

#[test]
fn after_navigation_lists_on_success_and_reports_a_refusal() {
    let app = started(0, "/store");
    assert_eq!(app.after_navigation(Ok(())), Action::List("/store".to_string()));
    assert_eq!(
        app.after_navigation(Err(NavError::AtRoot)),
        Action::Rejected(NavError::AtRoot)
    );
    assert_eq!(
        app.after_navigation(Err(NavError::NotADirectory)),
        Action::Rejected(NavError::NotADirectory)
    );
}

#[test]
fn a_chosen_entry_asks_to_be_opened() {
    let row = entry("/store/a", EntryType::Directory);
    let output = row.update(PasswordStoreEntryInput::Open);
    assert_eq!(output, PasswordStoreEntryOutput::Open(entry("/store/a", EntryType::Directory)));
    assert_eq!(Msg::from(output), Msg::OpenPath(entry("/store/a", EntryType::Directory)));
}

#[test]
fn an_entry_is_shown_by_its_whole_path() {
    let row = entry("/store/mail/work.gpg", EntryType::File);
    assert_eq!(row.display(), "/store/mail/work.gpg");
    assert_eq!(row.clone(), row);
    assert_eq!(String::from(row), "/store/mail/work.gpg");
}

#[test]
fn the_browser_stays_below_its_root_through_a_session() {
    let mut app = started(0, "/store");
    assert_eq!(app.sync(Some(store_contents())), Ok(()));
    let chosen = app.visible_files()[0].clone();
    assert_eq!(app.update(Msg::OpenPath(chosen)), Action::List("/store/a".to_string()));
    assert_eq!(
        app.sync(Some(vec![child("/store/a/deep", true), child("/store/a/key.gpg", false)])),
        Ok(())
    );
    let chosen = app.visible_files()[0].clone();
    assert_eq!(app.update(Msg::OpenPath(chosen)), Action::List("/store/a/deep".to_string()));
    assert_eq!(app.sync(Some(Vec::new())), Ok(()));
    assert_eq!(app.update(Msg::TravelUp), Action::List("/store/a".to_string()));
    assert_eq!(app.update(Msg::TravelUp), Action::List("/store".to_string()));
    assert_eq!(app.update(Msg::TravelUp), Action::Rejected(NavError::AtRoot));
    assert_eq!(app.current_dir(), "/store");
    assert_eq!(app.store_root(), "/store");
}
