//! The vault handle and the state that the desktop application shares
//! between its commands.

use vstd::prelude::*;

use std::path::PathBuf;
use std::sync::Mutex;

verus! {

#[verifier::external_type_specification]
#[verifier::external_body]
pub struct ExPathBuf(PathBuf);

#[verifier::external_type_specification]
#[verifier::external_body]
#[verifier::reject_recursive_types(T)]
pub struct ExMutex<T: ?Sized>(Mutex<T>);

/// `std::sync::Mutex::new`, which makes a mutex around a value. Nothing is
/// claimed of the result: what a mutex holds can change behind a shared
/// reference, so it is no function of the mutex value.
pub assume_specification<T>[ Mutex::<T>::new ](t: T) -> Mutex<T>;

/// Where a vault's files live.
pub struct VaultConfig {
    /// The vault's root directory.
    pub root: PathBuf,
    /// The directory of note files, `notes/` under the root.
    pub notes_dir: PathBuf,
    /// The note-path registry, `note-paths.csv` under the root.
    pub note_paths_file: PathBuf,
}

/// An open vault.
pub struct Vault {
    pub config: VaultConfig,
}

/// The state that the application's commands share: the open vault, if any,
/// and where the bundled Typst binary and packages were found.
pub struct AppState {
    pub vault: Mutex<Option<Vault>>,
    /// Resolved path to the bundled typst sidecar binary.
    pub typst_binary: Mutex<Option<PathBuf>>,
    /// Resolved path to the bundled packages directory.
    pub package_path: Mutex<Option<PathBuf>>,
}

impl AppState {
    /// No vault open and no paths resolved yet.
    pub fn new() -> Self {
        AppState {
            vault: Mutex::new(None),
            typst_binary: Mutex::new(None),
            package_path: Mutex::new(None),
        }
    }
}

} // verus!
