use vstd::prelude::*;

use crate::error::Error;
use crate::rules::{opt_view, RuleTable};

verus! {

/// How much a run reports while it works, from nothing to everything.
#[derive(Clone, Copy, Debug, PartialEq, Eq, Structural)]
pub enum DebugLevel {
    Off,
    Error,
    Warn,
    Info,
    Debug,
    Trace,
}

/// Settings as key and value texts, in the order they were given.
pub struct Settings {
    pub entries: Vec<(String, String)>,
}

impl View for Settings {
    type V = Seq<(Seq<char>, Seq<char>)>;

    open spec fn view(&self) -> Self::V {
        self.entries@.map_values(|e: (String, String)| (e.0@, e.1@))
    }
}

/// Entry `i` is the first one with key `key`.
pub open spec fn is_first_key(entries: Seq<(Seq<char>, Seq<char>)>, key: Seq<char>, i: int) -> bool {
    &&& 0 <= i < entries.len()
    &&& entries[i].0 == key
    &&& forall|j: int| 0 <= j < i ==> entries[j].0 != key
}

/// The value of the first entry with key `key`, if any.
pub open spec fn setting_of(entries: Seq<(Seq<char>, Seq<char>)>, key: Seq<char>) -> Option<Seq<char>> {
    if exists|i: int| is_first_key(entries, key, i) {
        Some(entries[choose|i: int| is_first_key(entries, key, i)].1)
    } else {
        None
    }
}

/// The level that a `level` setting names. No setting means `info`; a name
/// that is not a level means `debug`.
pub open spec fn level_of(setting: Option<Seq<char>>) -> DebugLevel {
    match setting {
        None => DebugLevel::Info,
        Some(s) => if s == "trace"@ {
            DebugLevel::Trace
        } else if s == "debug"@ {
            DebugLevel::Debug
        } else if s == "info"@ {
            DebugLevel::Info
        } else if s == "warn"@ {
            DebugLevel::Warn
        } else if s == "error"@ {
            DebugLevel::Error
        } else if s == "off"@ {
            DebugLevel::Off
        } else {
            DebugLevel::Debug
        },
    }
}

proof fn lemma_first_key_unique(entries: Seq<(Seq<char>, Seq<char>)>, key: Seq<char>, i: int, k: int)
    requires
        is_first_key(entries, key, i),
        is_first_key(entries, key, k),
    ensures
        i == k,
{
    if i < k {
        assert(entries[i].0 != key);
    } else if k < i {
        assert(entries[k].0 != key);
    }
}

impl Settings {
    /// No settings.
    pub fn new() -> (r: Self)
        ensures
            r@.len() == 0,
    {
        Settings { entries: Vec::new() }
    }

    /// Adds a setting at the end.
    pub fn push(&mut self, key: String, value: String)
        ensures
            final(self)@ == old(self)@.push((key@, value@)),
    {
        let ghost entry = (key@, value@);
        self.entries.push((key, value));
        assert(self@ =~= old(self)@.push(entry));
    }

    /// The value of the first setting with key `key`.
    pub fn get(&self, key: &str) -> (r: Option<String>)
        ensures
            opt_view(r) == setting_of(self@, key@),
    {
        let k = String::from_str(key);
        let ghost es = self@;
        let n = self.entries.len();
        for i in 0..n
            invariant
                n == self.entries.len(),
                es == self@,
                k@ == key@,
                forall|j: int| 0 <= j < i ==> es[j].0 != key@,
        {
            assert(es[i as int] == (self.entries@[i as int].0@, self.entries@[i as int].1@));
            if self.entries[i].0 == k {
                assert(is_first_key(es, key@, i as int));
                proof {
                    let c = choose|j: int| is_first_key(es, key@, j);
                    lemma_first_key_unique(es, key@, i as int, c);
                }
                return Some(self.entries[i].1.clone());
            }
        }
        assert forall|j: int| !is_first_key(es, key@, j) by {
            if is_first_key(es, key@, j) {
                assert(es[j].0 != key@);
            }
        }
        None
    }
}

/// The configuration of a run: its rules and its debug settings.
pub struct DesktopCleanerConfig {
    pub file_types: Option<RuleTable>,
    pub debug: Option<Settings>,
}

/// Whether `s` is the text `t`.
fn is_text(s: &String, t: &str) -> (r: bool)
    ensures
        r == (s@ == t@),
{
    *s == String::from_str(t)
}

impl DesktopCleanerConfig {
    /// A configuration with no rules and no debug settings.
    pub fn new() -> (r: Result<Self, Error>)
        ensures
            r is Ok,
            r->Ok_0.file_types matches Some(t) && t@.len() == 0,
            r->Ok_0.debug matches Some(d) && d@.len() == 0,
    {
        Ok(DesktopCleanerConfig { file_types: Some(RuleTable::new()), debug: Some(Settings::new()) })
    }

    /// The debug level that the `level` setting names, as `level_of` states it.
    pub fn map_debug_level(&self) -> (r: DebugLevel)
        requires
            self.debug is Some,
        ensures
            r == level_of(setting_of(self.debug->0@, "level"@)),
    {
        let level = match &self.debug {
            Some(d) => d.get("level"),
            None => None,
        };
        match level {
            None => DebugLevel::Info,
            Some(s) => {
                if is_text(&s, "trace") {
                    DebugLevel::Trace
                } else if is_text(&s, "debug") {
                    DebugLevel::Debug
                } else if is_text(&s, "info") {
                    DebugLevel::Info
                } else if is_text(&s, "warn") {
                    DebugLevel::Warn
                } else if is_text(&s, "error") {
                    DebugLevel::Error
                } else if is_text(&s, "off") {
                    DebugLevel::Off
                } else {
                    DebugLevel::Debug
                }
            },
        }
    }
}

} // verus!
