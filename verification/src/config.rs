//! Where the store is: a directory the user names, or the default below the
//! user's home directory.

use vstd::prelude::*;

verus! {

/// Why the browser cannot start.
#[derive(Debug, Clone, Copy, PartialEq, Eq, Structural)]
pub enum ConfigError {
    /// No store directory was named, and the home directory that the
    /// default lies in is not known.
    HomeUnavailable,
}

/// The place of the default store below the home directory.
pub open spec fn default_subdirectory() -> Seq<char> {
    seq!['/', '.', 'p', 'a', 's', 's', 'w', 'o', 'r', 'd', '-', 's', 't', 'o', 'r', 'e']
}

/// The default store of a user whose home directory is `home`.
pub open spec fn default_store_root(home: Seq<char>) -> Seq<char> {
    home + default_subdirectory()
}

/// Asks `dirs::home_dir` for the user's home directory and hands it on as
/// text, or `None` where there is none or its path is not valid Unicode.
/// The answer depends on the environment of the process, so the contract
/// promises nothing of it.
#[verifier::external_body]
fn home_directory() -> (home: Option<String>) {
    dirs::home_dir().and_then(|path| path.to_str().map(String::from))
}

/// The root of the store, from the directory the user named, if any, and
/// the home directory, if known.
///
/// A named directory is the root as it stands. Without one the root is the
/// default below the home directory, and without that either there is no
/// root.
pub fn store_root_from(store_dir: Option<String>, home: Option<String>) -> (result: Result<
    String,
    ConfigError,
>)
    ensures
        store_dir matches Some(dir) ==> (result matches Ok(root) && root@ == dir@),
        store_dir is None && home is Some ==> (result matches Ok(root) && root@
            == default_store_root(home.unwrap()@)),
        store_dir is None && home is None ==> (result matches Err(e) && e
            == ConfigError::HomeUnavailable),
{
    match store_dir {
        Some(dir) => Ok(dir),
        None => match home {
            Some(home) => {
                proof {
                    reveal_strlit("/.password-store");
                    assert("/.password-store"@ =~= default_subdirectory());
                }
                Ok(home.concat("/.password-store"))
            },
            None => Err(ConfigError::HomeUnavailable),
        },
    }
}

/// The root of the store, from the directory the user named, if any; the
/// home directory is looked up only where none was named.
///
/// With a named directory this cannot fail. Without one the outcome rests on
/// the lookup: the root is the default below some home directory, or the
/// lookup found none.
pub fn resolve_store_root(store_dir: Option<String>) -> (result: Result<String, ConfigError>)
    ensures
        store_dir matches Some(dir) ==> (result matches Ok(root) && root@ == dir@),
        store_dir is None ==> (result matches Ok(root) ==> exists|home: Seq<char>|
            root@ == #[trigger] default_store_root(home)),
        result matches Err(e) ==> store_dir is None && e == ConfigError::HomeUnavailable,
{
    let home = if store_dir.is_none() {
        home_directory()
    } else {
        None
    };
    store_root_from(store_dir, home)
}

} // verus!
