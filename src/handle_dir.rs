use vstd::prelude::*;

use crate::error::Error;

verus! {

/// One child of the scanned directory.
pub struct DirEntry {
    /// The child's full path.
    pub path: String,
    /// The child's file name.
    pub file_name: String,
    /// The file name's extension, without its dot; empty when it has none.
    pub file_type: String,
    /// Whether the child is a directory.
    pub is_dir: bool,
}

/// The entries of one directory, in the order the file system listed them.
pub struct DirEntries {
    pub dir_entries: Option<Vec<DirEntry>>,
}

/// `i` is the position of the dot that starts the extension of `name`: the
/// last dot, provided it is not the first character.
pub open spec fn is_extension_dot(name: Seq<char>, i: int) -> bool {
    &&& 1 <= i < name.len()
    &&& name[i] == '.'
    &&& forall|j: int| i < j < name.len() ==> name[j] != '.'
}

/// The extension of a file name: what follows its last dot. A name with no
/// dot, or whose only dot is its first character, has an empty extension.
pub open spec fn extension_of(name: Seq<char>) -> Seq<char> {
    if exists|i: int| is_extension_dot(name, i) {
        let i = choose|i: int| is_extension_dot(name, i);
        name.subrange(i + 1, name.len() as int)
    } else {
        Seq::empty()
    }
}

/// The text of a flag: `true` or `false`.
pub open spec fn bool_text(b: bool) -> Seq<char> {
    if b {
        "true"@
    } else {
        "false"@
    }
}

/// The text that describes one entry, one field per line.
pub open spec fn entry_text(e: DirEntry) -> Seq<char> {
    "Path: "@ + e.path@ + "\nFile Name: "@ + e.file_name@ + "\nFile Type: "@ + e.file_type@
        + "\nIs Dir: "@ + bool_text(e.is_dir) + "\n"@
}

/// The texts of all entries, one after the other.
pub open spec fn entries_text(es: Seq<DirEntry>) -> Seq<char>
    decreases es.len(),
{
    if es.len() == 0 {
        Seq::empty()
    } else {
        entries_text(es.drop_last()) + entry_text(es.last())
    }
}

/// `e` is the entry made for the child at `path` named `name`.
pub open spec fn describes(e: DirEntry, path: Seq<char>, name: Seq<char>, is_dir: bool) -> bool {
    &&& e.path@ == path
    &&& e.file_name@ == name
    &&& e.file_type@ == extension_of(name)
    &&& e.is_dir == is_dir
}

proof fn lemma_extension_dot_unique(name: Seq<char>, i: int, k: int)
    requires
        is_extension_dot(name, i),
        is_extension_dot(name, k),
    ensures
        i == k,
{
    if i < k {
        assert(name[k] != '.');
    } else if k < i {
        assert(name[i] != '.');
    }
}

/// The extension of `name`, as `extension_of` states it.
pub fn extension(name: &str) -> (r: String)
    ensures
        r@ == extension_of(name@),
{
    let len = name.unicode_len();
    let mut k: usize = len;
    while k > 1
        invariant
            len == name@.len(),
            k <= len,
            forall|j: int| k <= j < len ==> name@[j] != '.',
        decreases k,
    {
        if name.get_char(k - 1) == '.' {
            let ghost d = k - 1;
            assert(is_extension_dot(name@, d));
            proof {
                let c = choose|i: int| is_extension_dot(name@, i);
                lemma_extension_dot_unique(name@, d, c);
            }
            return String::from_str(name.substring_char(k, len));
        }
        k = k - 1;
    }
    assert forall|i: int| !is_extension_dot(name@, i) by {
        if is_extension_dot(name@, i) {
            assert(name@[i] != '.');
        }
    }
    String::new()
}

impl DirEntry {
    /// An entry with the given fields.
    pub fn new(path: String, file_name: String, file_type: String, is_dir: bool) -> (r: Result<
        Self,
        Error,
    >)
        ensures
            r matches Ok(e) && e.path@ == path@ && e.file_name@ == file_name@ && e.file_type@
                == file_type@ && e.is_dir == is_dir,
    {
        Ok(DirEntry { path, file_name, file_type, is_dir })
    }

    /// The entry with empty texts that is not a directory.
    pub fn default() -> (r: Result<Self, Error>)
        ensures
            r matches Ok(e) && e.path@.len() == 0 && e.file_name@.len() == 0
                && e.file_type@.len() == 0 && !e.is_dir,
    {
        DirEntry::new(String::new(), String::new(), String::new(), false)
    }

    /// A copy of this entry.
    pub fn duplicate(&self) -> (r: Self)
        ensures
            r == *self,
    {
        DirEntry {
            path: self.path.clone(),
            file_name: self.file_name.clone(),
            file_type: self.file_type.clone(),
            is_dir: self.is_dir,
        }
    }

    /// The entry for one child of a directory: its path, its name, and whether
    /// it is a directory. Its extension is taken from its name.
    pub fn from_child(path: String, file_name: String, is_dir: bool) -> (r: Self)
        ensures
            describes(r, path@, file_name@, is_dir),
    {
        let file_type = extension(file_name.as_str());
        DirEntry { path, file_name, file_type, is_dir }
    }

    /// The entries for a directory listing, in the listing's order. Each child
    /// is given as its path, its file name, and whether it is a directory.
    pub fn get_dirs(listing: Vec<(String, String, bool)>) -> (r: DirEntries)
        ensures
            r.dir_entries matches Some(v) && v.len() == listing.len() && forall|i: int|
                0 <= i < v.len() ==> describes(
                    #[trigger] v[i],
                    listing[i].0@,
                    listing[i].1@,
                    listing[i].2,
                ),
    {
        let mut v: Vec<DirEntry> = Vec::new();
        let n = listing.len();
        for i in 0..n
            invariant
                n == listing.len(),
                v.len() == i,
                forall|j: int|
                    0 <= j < i ==> describes(
                        #[trigger] v[j],
                        listing[j].0@,
                        listing[j].1@,
                        listing[j].2,
                    ),
        {
            let child = &listing[i];
            let e = DirEntry::from_child(child.0.clone(), child.1.clone(), child.2);
            v.push(e);
        }
        DirEntries { dir_entries: Some(v) }
    }

    /// The text that describes this entry, as it is printed.
    pub fn print_dir_entry(&self) -> (r: String)
        ensures
            r@ == entry_text(*self),
    {
        let mut s = String::from_str("Path: ");
        s.append(self.path.as_str());
        s.append("\nFile Name: ");
        s.append(self.file_name.as_str());
        s.append("\nFile Type: ");
        s.append(self.file_type.as_str());
        s.append("\nIs Dir: ");
        if self.is_dir {
            s.append("true");
        } else {
            s.append("false");
        }
        s.append("\n");
        s
    }
}

impl DirEntries {
    /// A collection that holds no entry yet.
    pub fn new() -> (r: Self)
        ensures
            r.dir_entries matches Some(v) && v.len() == 0,
    {
        DirEntries { dir_entries: Some(Vec::new()) }
    }

    /// A collection that holds no entry yet.
    pub fn default() -> (r: Self)
        ensures
            r.dir_entries matches Some(v) && v.len() == 0,
    {
        DirEntries::new()
    }

    /// The texts of all entries, one after the other, as they are printed.
    pub fn print_dir_entries(&self) -> (r: String)
        ensures
            r@ == match self.dir_entries {
                Some(v) => entries_text(v@),
                None => Seq::empty(),
            },
    {
        let mut s = String::new();
        match &self.dir_entries {
            Some(v) => {
                let n = v.len();
                for i in 0..n
                    invariant
                        n == v.len(),
                        s@ == entries_text(v@.subrange(0, i as int)),
                {
                    let t = v[i].print_dir_entry();
                    assert(v@.subrange(0, i + 1).drop_last() == v@.subrange(0, i as int));
                    s.append(t.as_str());
                }
                assert(v@.subrange(0, n as int) == v@);
            },
            None => {},
        }
        s
    }
}

} // verus!
