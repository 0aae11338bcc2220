use vstd::prelude::*;

use crate::error::Error;

verus! {

/// A request to sort one directory.
pub struct CleanHandler {
    /// The directory to sort; the user's desktop when absent.
    pub directory: Option<String>,
    /// Whether sub-directories are to be sorted too.
    pub recursive: Option<bool>,
    /// Whether hidden files are to be sorted too.
    pub hidden: Option<bool>,
}

/// The directories of the user that the platform knows.
pub struct KnownDirs {
    /// The desktop, where the platform has one.
    pub desktop: Option<String>,
    /// The home directory.
    pub home: String,
}

/// The message when the given directory does not exist.
pub open spec fn missing_dir_message() -> Seq<char> {
    "Could not find the path specified"@
}

/// The message when the user's directories are unknown.
pub open spec fn unknown_dirs_message() -> Seq<char> {
    "Failed to get desktop dir, using the home dir instead"@
}

impl CleanHandler {
    /// A request with the given directory and options.
    pub fn new(directory: Option<String>, recursive: Option<bool>, hidden: Option<bool>) -> (r:
        Self)
        ensures
            r.directory == directory,
            r.recursive == recursive,
            r.hidden == hidden,
    {
        CleanHandler { directory, recursive, hidden }
    }

    /// The directory to sort. A given directory is taken when it exists
    /// (`src_exists`) and refused when it does not. Without one, the user's
    /// desktop is taken, or the home directory where there is no desktop; the
    /// request is refused when the user's directories are unknown.
    pub fn try_parse_directory(src: Option<String>, src_exists: bool, known: Option<KnownDirs>) -> (r:
        Result<Option<String>, Error>)
        ensures
            match src {
                Some(s) => if src_exists {
                    r matches Ok(Some(p)) && p@ == s@
                } else {
                    r matches Err(Error::OperationCancelled(m)) && m@ == missing_dir_message()
                },
                None => match known {
                    Some(k) => r matches Ok(Some(p)) && p@ == match k.desktop {
                        Some(d) => d@,
                        None => k.home@,
                    },
                    None => r matches Err(Error::OperationCancelled(m)) && m@
                        == unknown_dirs_message(),
                },
            },
    {
        match src {
            Some(s) => {
                if src_exists {
                    Ok(Some(s))
                } else {
                    Err(Error::op_cancelled("Could not find the path specified"))
                }
            },
            None => match known {
                Some(k) => match k.desktop {
                    Some(d) => Ok(Some(d)),
                    None => Ok(Some(k.home)),
                },
                None => Err(Error::op_cancelled("Failed to get desktop dir, using the home dir instead")),
            },
        }
    }
}

} // verus!
