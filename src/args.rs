use vstd::prelude::*;

verus! {

/// The program's arguments.
pub struct DesktopCleanerArgs {
    /// The directory to clean.
    pub directory: Option<String>,
}

} // verus!
