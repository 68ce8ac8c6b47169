//! The repository table read from `repo_config.toml`: which repositories the
//! server builds, and where each one is checked out.

use vstd::prelude::*;
use crate::text::{text_less, text_lt, lemma_text_lt_irreflexive, lemma_text_lt_total, lemma_text_lt_transitive};

verus! {

broadcast use vstd::string::group_string_axioms;

/// `std::io::Error`, carried by the error types of the library.
#[verifier::external_type_specification]
#[verifier::external_body]
pub struct ExIoError(std::io::Error);

/// An entry of the table as plain text: (repository name, local path).
pub type EntryText = (Seq<char>, Seq<char>);

/// Whether the names of `e` rise strictly from first to last, so that no
/// name occurs twice.
pub open spec fn names_ascending(e: Seq<EntryText>) -> bool {
    forall|i: int, j: int| 0 <= i < j < e.len() ==> text_lt(#[trigger] e[i].0, #[trigger] e[j].0)
}

/// Whether some entry of `e` has the name `k`.
pub open spec fn has_name(e: Seq<EntryText>, k: Seq<char>) -> bool {
    exists|i: int| 0 <= i < e.len() && #[trigger] e[i].0 == k
}

/// An index of an entry named `k`, where there is one.
pub open spec fn name_index(e: Seq<EntryText>, k: Seq<char>) -> int {
    choose|i: int| 0 <= i < e.len() && #[trigger] e[i].0 == k
}

/// The path recorded under `k`, if there is one.
pub open spec fn lookup(e: Seq<EntryText>, k: Seq<char>) -> Option<Seq<char>> {
    if has_name(e, k) {
        Some(e[name_index(e, k)].1)
    } else {
        None
    }
}

/// The table as a map from names to paths.
pub open spec fn table_map(e: Seq<EntryText>) -> Map<Seq<char>, Seq<char>> {
    Map::new(|k: Seq<char>| has_name(e, k), |k: Seq<char>| lookup(e, k).unwrap())
}

/// The text that an optional `String` holds.
pub open spec fn opt_text(o: Option<String>) -> Option<Seq<char>> {
    match o {
        Some(s) => Some(s@),
        None => None,
    }
}

proof fn lemma_ascending_distinct(e: Seq<EntryText>, i: int, j: int)
    requires
        names_ascending(e),
        0 <= i < e.len(),
        0 <= j < e.len(),
        i != j,
    ensures
        e[i].0 != e[j].0,
{
    if i < j {
        assert(text_lt(e[i].0, e[j].0));
        lemma_text_lt_irreflexive(e[i].0);
    } else {
        assert(text_lt(e[j].0, e[i].0));
        lemma_text_lt_irreflexive(e[j].0);
    }
}

/// In an ascending table, the entry at `i` is what its name looks up.
proof fn lemma_lookup_at(e: Seq<EntryText>, i: int)
    requires
        names_ascending(e),
        0 <= i < e.len(),
    ensures
        has_name(e, e[i].0),
        lookup(e, e[i].0) == Some(e[i].1),
{
    let k = e[i].0;
    assert(has_name(e, k));
    let j: int = name_index(e, k);
    if j != i {
        lemma_ascending_distinct(e, i, j);
    }
}

/// Replacing the path of an entry keeps the order and updates the map.
proof fn lemma_replace_entry(e: Seq<EntryText>, i: int, k: Seq<char>, p: Seq<char>)
    requires
        names_ascending(e),
        0 <= i < e.len(),
        e[i].0 == k,
    ensures
        names_ascending(e.update(i, (k, p))),
        table_map(e.update(i, (k, p))) == table_map(e).insert(k, p),
{
    let n = e.update(i, (k, p));
    assert(names_ascending(n)) by {
        assert forall|a: int, b: int| 0 <= a < b < n.len() implies text_lt(#[trigger] n[a].0, #[trigger] n[b].0) by {
            assert(text_lt(e[a].0, e[b].0));
        }
    }
    assert forall|key: Seq<char>| has_name(n, key) == (has_name(e, key) || key == k) by {
        if has_name(e, key) {
            let m: int = name_index(e, key);
            assert(n[m].0 == key);
        }
        if has_name(n, key) {
            let m: int = name_index(n, key);
            assert(e[m].0 == key);
        }
        if key == k {
            assert(n[i].0 == k);
        }
    }
    assert forall|key: Seq<char>| #[trigger] has_name(n, key) implies lookup(n, key) == (if key == k {
        Some(p)
    } else {
        lookup(e, key)
    }) by {
        let m: int = name_index(n, key);
        lemma_lookup_at(n, m);
        if m != i {
            assert(e[m] == n[m]);
            lemma_lookup_at(e, m);
            lemma_ascending_distinct(e, m, i);
        } else {
            assert(key == k);
        }
    }
    assert(table_map(n) =~= table_map(e).insert(k, p));
}

/// Putting a new name at its place keeps the order and adds it to the map.
proof fn lemma_insert_entry(e: Seq<EntryText>, i: int, k: Seq<char>, p: Seq<char>)
    requires
        names_ascending(e),
        0 <= i <= e.len(),
        forall|j: int| 0 <= j < i ==> text_lt(#[trigger] e[j].0, k),
        i < e.len() ==> text_lt(k, e[i].0),
    ensures
        !has_name(e, k),
        names_ascending(e.insert(i, (k, p))),
        table_map(e.insert(i, (k, p))) == table_map(e).insert(k, p),
{
    let n = e.insert(i, (k, p));
    // everything from `i` on lies above `k`
    assert forall|j: int| i <= j < e.len() implies text_lt(k, #[trigger] e[j].0) by {
        if j > i {
            assert(text_lt(e[i].0, e[j].0));
            lemma_text_lt_transitive(k, e[i].0, e[j].0);
        }
    }
    assert(!has_name(e, k)) by {
        if has_name(e, k) {
            let m: int = name_index(e, k);
            lemma_text_lt_irreflexive(k);
            if m < i {
                assert(text_lt(e[m].0, k));
            } else {
                assert(text_lt(k, e[m].0));
            }
        }
    }
    assert(names_ascending(n)) by {
        assert forall|a: int, b: int| 0 <= a < b < n.len() implies text_lt(#[trigger] n[a].0, #[trigger] n[b].0) by {
            if b < i {
                assert(text_lt(e[a].0, e[b].0));
            } else if b == i {
                assert(text_lt(e[a].0, k));
            } else if a < i {
                assert(text_lt(e[a].0, k));
                assert(text_lt(k, e[b - 1].0));
                lemma_text_lt_transitive(e[a].0, k, e[b - 1].0);
            } else if a == i {
                assert(text_lt(k, e[b - 1].0));
            } else {
                assert(text_lt(e[a - 1].0, e[b - 1].0));
            }
        }
    }
    assert forall|key: Seq<char>| has_name(n, key) == (has_name(e, key) || key == k) by {
        if has_name(e, key) {
            let m: int = name_index(e, key);
            if m < i {
                assert(n[m].0 == key);
            } else {
                assert(n[m + 1].0 == key);
            }
        }
        if has_name(n, key) {
            let m: int = name_index(n, key);
            if m < i {
                assert(e[m].0 == key);
            } else if m > i {
                assert(e[m - 1].0 == key);
            }
        }
        if key == k {
            assert(n[i].0 == k);
        }
    }
    assert forall|key: Seq<char>| #[trigger] has_name(n, key) implies lookup(n, key) == (if key == k {
        Some(p)
    } else {
        lookup(e, key)
    }) by {
        let m: int = name_index(n, key);
        lemma_lookup_at(n, m);
        if m < i {
            assert(e[m] == n[m]);
            lemma_lookup_at(e, m);
        } else if m > i {
            assert(e[m - 1] == n[m]);
            lemma_lookup_at(e, m - 1);
        }
    }
    assert(table_map(n) =~= table_map(e).insert(k, p));
}

/// Taking an entry out keeps the order and drops its name from the map.
proof fn lemma_remove_entry(e: Seq<EntryText>, i: int)
    requires
        names_ascending(e),
        0 <= i < e.len(),
    ensures
        names_ascending(e.remove(i)),
        table_map(e.remove(i)) == table_map(e).remove(e[i].0),
{
    let n = e.remove(i);
    let k = e[i].0;
    assert(names_ascending(n)) by {
        assert forall|a: int, b: int| 0 <= a < b < n.len() implies text_lt(#[trigger] n[a].0, #[trigger] n[b].0) by {
            if b < i {
                assert(text_lt(e[a].0, e[b].0));
            } else if a < i {
                assert(text_lt(e[a].0, e[b + 1].0));
            } else {
                assert(text_lt(e[a + 1].0, e[b + 1].0));
            }
        }
    }
    assert forall|key: Seq<char>| has_name(n, key) == (has_name(e, key) && key != k) by {
        if has_name(e, key) && key != k {
            let m: int = name_index(e, key);
            if m < i {
                assert(n[m].0 == key);
            } else {
                assert(m != i);
                assert(n[m - 1].0 == key);
            }
        }
        if has_name(n, key) {
            let m: int = name_index(n, key);
            if m < i {
                assert(e[m].0 == key);
                lemma_ascending_distinct(e, m, i);
            } else {
                assert(e[m + 1].0 == key);
                lemma_ascending_distinct(e, m + 1, i);
            }
        }
    }
    assert forall|key: Seq<char>| #[trigger] has_name(n, key) implies lookup(n, key) == lookup(e, key) by {
        let m: int = name_index(n, key);
        lemma_lookup_at(n, m);
        if m < i {
            lemma_lookup_at(e, m);
        } else {
            lemma_lookup_at(e, m + 1);
        }
    }
    assert(table_map(n) =~= table_map(e).remove(k));
}

/// The repositories and their local paths, ordered by name as in a
/// `BTreeMap<String, String>`.
pub struct Repositories {
    entries: Vec<(String, String)>,
}

impl View for Repositories {
    type V = Seq<EntryText>;

    closed spec fn view(&self) -> Seq<EntryText> {
        self.entries@.map_values(|p: (String, String)| (p.0@, p.1@))
    }
}

impl Repositories {
    #[verifier::type_invariant]
    closed spec fn ordered(&self) -> bool {
        names_ascending(self@)
    }

    /// An empty table.
    pub fn new() -> (r: Repositories)
        ensures
            r@ == Seq::<EntryText>::empty(),
    {
        let r = Repositories { entries: Vec::new() };
        assert(r@ =~= Seq::<EntryText>::empty());
        r
    }

    /// The number of repositories.
    pub fn len(&self) -> (r: usize)
        ensures
            r == self@.len(),
    {
        self.entries.len()
    }

    /// The position of the first entry whose name is not below `name`.
    fn position(&self, name: &String) -> (r: usize)
        ensures
            r <= self@.len(),
            forall|j: int| 0 <= j < r ==> text_lt(#[trigger] self@[j].0, name@),
            r < self@.len() ==> !text_lt(self@[r as int].0, name@),
    {
        let mut i: usize = 0;
        while i < self.entries.len() && text_less(self.entries[i].0.as_str(), name.as_str())
            invariant
                i <= self@.len(),
                self@.len() == self.entries@.len(),
                forall|j: int| 0 <= j < i ==> text_lt(#[trigger] self@[j].0, name@),
            decreases self.entries@.len() - i,
        {
            i = i + 1;
        }
        i
    }

    /// The index of the entry named `name`, if there is one.
    fn find(&self, name: &String) -> (r: Option<usize>)
        ensures
            match r {
                Some(i) => i < self@.len() && self@[i as int].0 == name@,
                None => !has_name(self@, name@),
            },
    {
        proof {
            use_type_invariant(self);
        }
        let i: usize = self.position(name);
        if i < self.entries.len() && self.entries[i].0 == *name {
            Some(i)
        } else {
            proof {
                if has_name(self@, name@) {
                    let j: int = choose|j: int| 0 <= j < self@.len() && #[trigger] self@[j].0 == name@;
                    if j < i {
                        assert(text_lt(self@[j].0, name@));
                        lemma_text_lt_irreflexive(name@);
                    } else if j > i {
                        assert(text_lt(self@[i as int].0, self@[j].0));
                        lemma_text_lt_total(self@[i as int].0, name@);
                    }
                }
            }
            None
        }
    }

    /// Whether a repository named `name` is listed.
    pub fn contains_key(&self, name: &String) -> (r: bool)
        ensures
            r == has_name(self@, name@),
    {
        self.find(name).is_some()
    }

    /// The path listed for `name`, if any.
    pub fn get(&self, name: &String) -> (r: Option<String>)
        ensures
            opt_text(r) == lookup(self@, name@),
    {
        proof {
            use_type_invariant(self);
        }
        match self.find(name) {
            Some(i) => {
                proof {
                    lemma_lookup_at(self@, i as int);
                }
                Some(self.entries[i].1.clone())
            },
            None => None,
        }
    }
}

impl Repositories {
    /// Records `path` for `name`, replacing the path it had; gives back that
    /// earlier path. The names stay in ascending order.
    pub fn insert(&mut self, name: String, path: String) -> (r: Option<String>)
        ensures
            table_map(final(self)@) == table_map(old(self)@).insert(name@, path@),
            opt_text(r) == lookup(old(self)@, name@),
            names_ascending(final(self)@),
    {
        proof {
            use_type_invariant(&*self);
        }
        let ghost e = self@;
        let i: usize = self.position(&name);
        let mut entries: Vec<(String, String)> = Vec::new();
        std::mem::swap(&mut entries, &mut self.entries);
        assert(entries@.map_values(|p: (String, String)| (p.0@, p.1@)) == e);
        if i < entries.len() && entries[i].0 == name {
            let previous = entries[i].1.clone();
            proof {
                lemma_lookup_at(e, i as int);
                lemma_replace_entry(e, i as int, name@, path@);
            }
            let ghost k = name@;
            let ghost pv = path@;
            entries.set(i, (name, path));
            assert(entries@.map_values(|p: (String, String)| (p.0@, p.1@)) =~= e.update(i as int, (k, pv)));
            self.entries = entries;
            Some(previous)
        } else {
            proof {
                if i < e.len() {
                    lemma_text_lt_total(e[i as int].0, name@);
                }
                lemma_insert_entry(e, i as int, name@, path@);
            }
            let ghost k = name@;
            let ghost pv = path@;
            entries.insert(i, (name, path));
            assert(entries@.map_values(|p: (String, String)| (p.0@, p.1@)) =~= e.insert(i as int, (k, pv)));
            self.entries = entries;
            None
        }
    }

    /// Takes `name` out of the table; gives back the path it had.
    pub fn remove(&mut self, name: &String) -> (r: Option<String>)
        ensures
            table_map(final(self)@) == table_map(old(self)@).remove(name@),
            opt_text(r) == lookup(old(self)@, name@),
            names_ascending(final(self)@),
    {
        proof {
            use_type_invariant(&*self);
        }
        let ghost e = self@;
        match self.find(name) {
            Some(i) => {
                proof {
                    lemma_lookup_at(e, i as int);
                    lemma_remove_entry(e, i as int);
                }
                let mut entries: Vec<(String, String)> = Vec::new();
                std::mem::swap(&mut entries, &mut self.entries);
                assert(entries@.map_values(|p: (String, String)| (p.0@, p.1@)) == e);
                let ghost before = entries@;
                let (_, path) = entries.remove(i);
                assert(entries@.map_values(|p: (String, String)| (p.0@, p.1@)) =~= e.remove(i as int));
                self.entries = entries;
                Some(path)
            },
            None => {
                assert(table_map(e) =~= table_map(e).remove(name@));
                None
            },
        }
    }

    /// The entries in ascending order of name.
    pub fn entries(&self) -> (r: Vec<(String, String)>)
        ensures
            r@.map_values(|p: (String, String)| (p.0@, p.1@)) == self@,
            names_ascending(self@),
    {
        proof {
            use_type_invariant(self);
        }
        let mut r: Vec<(String, String)> = Vec::new();
        let mut i: usize = 0;
        while i < self.entries.len()
            invariant
                i <= self.entries@.len(),
                self@ == self.entries@.map_values(|p: (String, String)| (p.0@, p.1@)),
                r@.map_values(|p: (String, String)| (p.0@, p.1@)) =~= self@.take(i as int),
            decreases self.entries@.len() - i,
        {
            let name = self.entries[i].0.clone();
            let path = self.entries[i].1.clone();
            let ghost r0 = r@;
            r.push((name, path));
            proof {
                assert(r@ == r0.push(self.entries@[i as int]));
                assert(r@.map_values(|p: (String, String)| (p.0@, p.1@)) =~= r0.map_values(|p: (String, String)| (p.0@, p.1@)).push(self@[i as int]));
                assert(self@.take(i + 1) =~= self@.take(i as int).push(self@[i as int]));
            }
            i = i + 1;
        }
        assert(self@.take(i as int) =~= self@);
        r
    }
}

/// What a lookup gives is what the table's map holds.
proof fn lemma_lookup_is_map(e: Seq<EntryText>, k: Seq<char>)
    ensures
        lookup(e, k) == (if table_map(e).dom().contains(k) {
            Some(table_map(e)[k])
        } else {
            None
        }),
{
}

/// After `insert(name, path)`, `get(name)` gives `path` and every other name
/// gives what it gave before.
pub proof fn law_get_after_insert(
    before: Seq<EntryText>,
    after: Seq<EntryText>,
    name: Seq<char>,
    path: Seq<char>,
    other: Seq<char>,
)
    requires
        table_map(after) == table_map(before).insert(name, path),
    ensures
        lookup(after, name) == Some(path),
        other != name ==> lookup(after, other) == lookup(before, other),
{
    lemma_lookup_is_map(after, name);
    lemma_lookup_is_map(after, other);
    lemma_lookup_is_map(before, other);
}

/// After `remove(name)`, `get(name)` gives nothing and every other name gives
/// what it gave before.
pub proof fn law_get_after_remove(
    before: Seq<EntryText>,
    after: Seq<EntryText>,
    name: Seq<char>,
    other: Seq<char>,
)
    requires
        table_map(after) == table_map(before).remove(name),
    ensures
        lookup(after, name) is None,
        other != name ==> lookup(after, other) == lookup(before, other),
{
    lemma_lookup_is_map(after, name);
    lemma_lookup_is_map(after, other);
    lemma_lookup_is_map(before, other);
}

/// The server's configuration: the repositories it knows.
pub struct Config {
    pub repositories: Repositories,
}

/// The table that a list of (name, path) pairs makes when they are put in
/// one after the other, a later path for a name replacing an earlier one.
pub open spec fn pairs_map(pairs: Seq<(String, String)>) -> Map<Seq<char>, Seq<char>>
    decreases pairs.len(),
{
    if pairs.len() == 0 {
        Map::empty()
    } else {
        pairs_map(pairs.drop_last()).insert(pairs.last().0@, pairs.last().1@)
    }
}

impl Config {
    /// The configuration listing `pairs`, as a `BTreeMap` collected from
    /// them would: a later path for a name replaces an earlier one.
    pub fn from_pairs(pairs: Vec<(String, String)>) -> (r: Config)
        ensures
            table_map(r.repositories@) == pairs_map(pairs@),
            names_ascending(r.repositories@),
    {
        let mut repositories = Repositories::new();
        assert(table_map(repositories@) =~= Map::<Seq<char>, Seq<char>>::empty());
        let mut i: usize = 0;
        while i < pairs.len()
            invariant
                i <= pairs@.len(),
                table_map(repositories@) == pairs_map(pairs@.take(i as int)),
                names_ascending(repositories@),
            decreases pairs@.len() - i,
        {
            let name = pairs[i].0.clone();
            let path = pairs[i].1.clone();
            repositories.insert(name, path);
            assert(pairs@.take(i + 1).drop_last() =~= pairs@.take(i as int));
            i = i + 1;
        }
        assert(pairs@.take(i as int) =~= pairs@);
        Config { repositories }
    }
}

/// Why the configuration could not be loaded.
#[derive(Debug)]
pub enum ConfigError {
    /// The file could not be read.
    IO(std::io::Error),
    /// The file is not a valid repository table.
    BadConfig,
}

/// `Display` of `std::io::Error`: its message. Nothing is stated of the
/// text, which for errors of the system comes from the system.
#[verifier::external_body]
pub(crate) fn io_error_text(e: &std::io::Error) -> String {
    e.to_string()
}

impl ConfigError {
    /// A short description of the kind of error.
    pub fn description(&self) -> (r: String)
        ensures
            r@ == (match self {
                ConfigError::IO(_) => "I/O Error!"@,
                ConfigError::BadConfig => "Problem within repo_config.toml!"@,
            }),
    {
        match self {
            ConfigError::IO(_) => "I/O Error!".to_string(),
            ConfigError::BadConfig => "Problem within repo_config.toml!".to_string(),
        }
    }

    /// The message shown to a user: the I/O error's own message, or
    /// `Bad config!`.
    pub fn to_string(&self) -> (r: String)
        ensures
            self is BadConfig ==> r@ == "Bad config!"@,
    {
        match self {
            ConfigError::IO(e) => io_error_text(e),
            ConfigError::BadConfig => "Bad config!".to_string(),
        }
    }
}

} // verus!
