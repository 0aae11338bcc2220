use vstd::prelude::*;

use crate::handle_dir::DirEntry;

verus! {

/// A category: the name of a destination sub-directory and the extensions,
/// each with its leading dot (".pdf"), whose files go there.
pub struct Category {
    pub name: String,
    pub extensions: Vec<String>,
}

/// The rules of a run: categories in the order in which they are tried.
pub struct RuleTable {
    pub categories: Vec<Category>,
}

/// The model of a category: its name and its extensions.
pub open spec fn category_view(c: Category) -> (Seq<char>, Seq<Seq<char>>) {
    (c.name@, c.extensions.deep_view())
}

impl View for RuleTable {
    type V = Seq<(Seq<char>, Seq<Seq<char>>)>;

    open spec fn view(&self) -> Self::V {
        self.categories@.map_values(|c: Category| category_view(c))
    }
}

/// No two categories share a name.
pub open spec fn names_unique(cats: Seq<(Seq<char>, Seq<Seq<char>>)>) -> bool {
    forall|i: int, j: int| 0 <= i < j < cats.len() ==> cats[i].0 != cats[j].0
}

/// The extension as the rules write it: with a leading dot.
pub open spec fn dotted(ext: Seq<char>) -> Seq<char> {
    "."@ + ext
}

/// Category `i` is the first one whose extensions hold `d`.
pub open spec fn is_first_match(cats: Seq<(Seq<char>, Seq<Seq<char>>)>, d: Seq<char>, i: int) -> bool {
    &&& 0 <= i < cats.len()
    &&& cats[i].1.contains(d)
    &&& forall|j: int| 0 <= j < i ==> !cats[j].1.contains(d)
}

/// The category of an entry: none for a directory or an entry without an
/// extension; otherwise the name of the first category that lists the
/// entry's dotted extension, if one does.
pub open spec fn category_of(cats: Seq<(Seq<char>, Seq<Seq<char>>)>, is_dir: bool, ext: Seq<char>) -> Option<Seq<char>> {
    if is_dir || ext.len() == 0 {
        None
    } else if exists|i: int| is_first_match(cats, dotted(ext), i) {
        Some(cats[choose|i: int| is_first_match(cats, dotted(ext), i)].0)
    } else {
        None
    }
}

/// The model of an optional text.
pub open spec fn opt_view(o: Option<String>) -> Option<Seq<char>> {
    match o {
        Some(s) => Some(s@),
        None => None,
    }
}

/// The category that the rules give to the entry.
pub open spec fn destination_of(cats: Seq<(Seq<char>, Seq<Seq<char>>)>, e: DirEntry) -> Option<Seq<char>> {
    category_of(cats, e.is_dir, e.file_type@)
}

/// An entry with the category it is to be moved to, if any.
pub struct ClassificationResult {
    pub entry: DirEntry,
    pub destination: Option<String>,
}

/// Whether `v` holds the text `s`.
fn holds(v: &Vec<String>, s: &String) -> (r: bool)
    ensures
        r == v.deep_view().contains(s@),
{
    let n = v.len();
    for i in 0..n
        invariant
            n == v.len(),
            forall|j: int| 0 <= j < i ==> v.deep_view()[j] != s@,
    {
        if v[i] == *s {
            assert(v.deep_view()[i as int] == s@);
            return true;
        }
    }
    false
}

proof fn lemma_first_match_unique(cats: Seq<(Seq<char>, Seq<Seq<char>>)>, d: Seq<char>, i: int, k: int)
    requires
        is_first_match(cats, d, i),
        is_first_match(cats, d, k),
    ensures
        i == k,
{
    if i < k {
        assert(!cats[i].1.contains(d));
    } else if k < i {
        assert(!cats[k].1.contains(d));
    }
}

proof fn lemma_first_match_exists(cats: Seq<(Seq<char>, Seq<Seq<char>>)>, d: Seq<char>, i: int)
    requires
        0 <= i < cats.len(),
        cats[i].1.contains(d),
    ensures
        exists|k: int| 0 <= k <= i && is_first_match(cats, d, k),
    decreases i,
{
    if exists|j: int| 0 <= j < i && cats[j].1.contains(d) {
        let j = choose|j: int| 0 <= j < i && cats[j].1.contains(d);
        lemma_first_match_exists(cats, d, j);
    } else {
        assert(is_first_match(cats, d, i));
    }
}

/// Classification depends on nothing but the rules and the entry's kind and
/// extension: equal rules and such entries always get the same category.
pub proof fn lemma_classification_deterministic(a: RuleTable, b: RuleTable, e: DirEntry, f: DirEntry)
    requires
        a@ == b@,
        e.is_dir == f.is_dir,
        e.file_type@ == f.file_type@,
    ensures
        destination_of(a@, e) == destination_of(b@, f),
{
}

/// When two categories both list a file's extension, the file goes to a
/// category declared no later than the earlier of the two, and never to the
/// later one.
pub proof fn lemma_earlier_category_wins(rules: RuleTable, e: DirEntry, i: int, j: int)
    requires
        names_unique(rules@),
        0 <= i < j < rules@.len(),
        !e.is_dir,
        e.file_type@.len() > 0,
        rules@[i].1.contains(dotted(e.file_type@)),
        rules@[j].1.contains(dotted(e.file_type@)),
    ensures
        exists|k: int| 0 <= k <= i && destination_of(rules@, e) == Some(rules@[k].0),
        destination_of(rules@, e) != Some(rules@[j].0),
{
    let cats = rules@;
    let d = dotted(e.file_type@);
    lemma_first_match_exists(cats, d, i);
    let k = choose|k: int| 0 <= k <= i && is_first_match(cats, d, k);
    let c = choose|c: int| is_first_match(cats, d, c);
    lemma_first_match_unique(cats, d, k, c);
    assert(destination_of(cats, e) == Some(cats[k].0));
    assert(cats[k].0 != cats[j].0);
}

impl RuleTable {
    /// A table without categories.
    pub fn new() -> (r: Self)
        ensures
            r@.len() == 0,
    {
        RuleTable { categories: Vec::new() }
    }

    /// Gives the category `name` the extensions `extensions`: a category of
    /// that name is replaced in place, else a new one is added at the end.
    pub fn insert(&mut self, name: String, extensions: Vec<String>)
        requires
            names_unique(old(self)@),
        ensures
            names_unique(final(self)@),
            forall|k: int|
                0 <= k < old(self)@.len() && old(self)@[k].0 == name@ ==> final(self)@ == old(
                    self,
                )@.update(k, (name@, extensions.deep_view())),
            (forall|k: int| 0 <= k < old(self)@.len() ==> old(self)@[k].0 != name@)
                ==> final(self)@ == old(self)@.push((name@, extensions.deep_view())),
    {
        let ghost before = self@;
        let n = self.categories.len();
        for i in 0..n
            invariant
                n == self.categories.len(),
                self@ == before,
                before == old(self)@,
                names_unique(before),
                forall|j: int| 0 <= j < i ==> before[j].0 != name@,
        {
            assert(before[i as int] == category_view(self.categories@[i as int]));
            if self.categories[i].name == name {
                assert(before[i as int].0 == name@);
                let ghost entry = (name@, extensions.deep_view());
                self.categories.set(i, Category { name, extensions });
                assert(self@ =~= before.update(i as int, entry));
                assert forall|k: int|
                    0 <= k < before.len() && before[k].0 == name@ implies k == i by {
                    if k != i {
                        assert(before[k].0 != before[i as int].0);
                    }
                }
                return ;
            }
        }
        let ghost entry = (name@, extensions.deep_view());
        self.categories.push(Category { name, extensions });
        assert(self@ =~= before.push(entry));
    }

    /// The category that the rules give to `entry`, as `category_of` states it.
    pub fn category_for(&self, entry: &DirEntry) -> (r: Option<String>)
        ensures
            opt_view(r) == destination_of(self@, *entry),
    {
        if entry.is_dir || entry.file_type.as_str().is_empty() {
            return None;
        }
        let mut d = String::from_str(".");
        d.append(entry.file_type.as_str());
        let ghost cats = self@;
        assert(d@ == dotted(entry.file_type@));
        let n = self.categories.len();
        for i in 0..n
            invariant
                n == self.categories.len(),
                cats == self@,
                !entry.is_dir,
                entry.file_type@.len() > 0,
                d@ == dotted(entry.file_type@),
                forall|j: int| 0 <= j < i ==> !cats[j].1.contains(d@),
        {
            assert(cats[i as int] == category_view(self.categories@[i as int]));
            if holds(&self.categories[i].extensions, &d) {
                assert(is_first_match(cats, d@, i as int));
                proof {
                    let c = choose|k: int| is_first_match(cats, d@, k);
                    lemma_first_match_unique(cats, d@, i as int, c);
                }
                return Some(self.categories[i].name.clone());
            }
        }
        assert forall|k: int| !is_first_match(cats, d@, k) by {
            if is_first_match(cats, d@, k) {
                assert(!cats[k].1.contains(d@));
            }
        }
        None
    }
}

/// Classifies one entry against the rules.
pub fn classify(entry: DirEntry, rules: &RuleTable) -> (r: ClassificationResult)
    ensures
        r.entry == entry,
        opt_view(r.destination) == destination_of(rules@, entry),
{
    let destination = rules.category_for(&entry);
    ClassificationResult { entry, destination }
}

} // verus!
