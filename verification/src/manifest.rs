//! The manifest: the record of created sessions, each entry tying a name to
//! the directory it was created for and to the script stored for it. This
//! module holds the entry rules and the in-memory collection; serializing
//! the manifest to disk happens at the boundary.

use crate::paths::{display_spec, DirPath};
use crate::text::{deduce_from, replace_char, replace_chars, str_eq, views_of};
use vstd::prelude::*;
use vstd::string::StrSliceExecFns;
use vstd::string::StringExecFns;

verus! {

/// The failures of manifest management.
#[derive(Debug)]
pub enum Error {
    AlreadyExists(String),
    NotFound(String),
    /// A path without a usable final component.
    InvalidFilename,
}

/// One recorded session: its name, the directory it was created for, and
/// the name of its stored script.
#[derive(Debug)]
pub struct Entry {
    pub name: String,
    pub session_path: DirPath,
    pub script_name: String,
}

impl Entry {
    /// Whether two entries collide: each of the three identities must be
    /// unique, so sharing any one of them is a clash.
    pub open spec fn conflicts_with(&self, other: &Entry) -> bool {
        ||| self.name@ == other.name@
        ||| self.script_name@ == other.script_name@
        ||| views_of(self.session_path.components@) == views_of(other.session_path.components@)
    }

    /// A new entry; the script name is the session name with the name
    /// delimiter flattened away, so it can serve as a file name.
    pub fn new(name: String, session_path: DirPath) -> (r: Self)
        ensures
            r.name == name,
            r.session_path == session_path,
            r.script_name@ == replace_chars(name@, '/', '_'),
    {
        let script_name = replace_char(name.as_str(), '/', '_');
        Self { name, session_path, script_name }
    }

    pub fn name(&self) -> (r: &str)
        ensures
            r@ == self.name@,
    {
        self.name.as_str()
    }

    pub fn session_path(&self) -> (r: &DirPath)
        ensures
            *r == self.session_path,
    {
        &self.session_path
    }

    pub fn script_name(&self) -> (r: &str)
        ensures
            r@ == self.script_name@,
    {
        self.script_name.as_str()
    }

    /// An identical entry value.
    pub fn clone_entry(&self) -> (r: Self)
        ensures
            r.name == self.name,
            r.script_name == self.script_name,
            r.session_path.components@ == self.session_path.components@,
    {
        Entry {
            name: self.name.clone(),
            session_path: self.session_path.clone(),
            script_name: self.script_name.clone(),
        }
    }
}

/// The view of an entry: its three identities as plain sequences.
pub open spec fn entry_view(e: Entry) -> (Seq<char>, Seq<Seq<char>>, Seq<char>) {
    (e.name@, views_of(e.session_path.components@), e.script_name@)
}

pub open spec fn entry_views(s: Seq<Entry>) -> Seq<(Seq<char>, Seq<Seq<char>>, Seq<char>)> {
    s.map_values(|e: Entry| entry_view(e))
}

/// The in-memory collection of recorded sessions.
#[derive(Debug)]
pub struct Manifest {
    pub entries: Vec<Entry>,
}

impl Default for Manifest {
    fn default() -> (r: Self)
        ensures
            r.entries@.len() == 0,
    {
        Manifest { entries: Vec::new() }
    }
}

impl Manifest {
    /// Whether some entry carries this name.
    pub open spec fn contains_spec(&self, name: Seq<char>) -> bool {
        exists|i: int| 0 <= i < self.entries@.len() && (#[trigger] self.entries@[i]).name@
            == name
    }

    /// The set of names already in use.
    pub open spec fn taken_names(&self) -> Set<Seq<char>> {
        Set::new(|n: Seq<char>| self.contains_spec(n))
    }

    /// Whether some entry was created for this directory.
    pub open spec fn path_taken(&self, comps: Seq<Seq<char>>) -> bool {
        exists|i: int| 0 <= i < self.entries@.len() && views_of(
            (#[trigger] self.entries@[i]).session_path.components@,
        ) == comps
    }

    /// Deduces a free name for a directory: its own name, disambiguated with
    /// parent directory names while the name is taken. A directory that
    /// already has an entry, or a name that stays taken after every parent
    /// was used, is refused as already existing.
    pub fn deduce_name(&self, path: &DirPath) -> (r: Result<String, Error>)
        ensures
            self.path_taken(views_of(path.components@)) ==> (r matches Err(e) && e matches
                Error::AlreadyExists(n) && n@ == display_spec(views_of(path.components@))),
            !self.path_taken(views_of(path.components@)) && path.components@.len() == 0 ==> (
            r matches Err(e) && e is InvalidFilename),
            !self.path_taken(views_of(path.components@)) && path.components@.len() > 0 ==> {
                let full = deduce_from(
                    views_of(path.components@),
                    path.components@.len() - 2,
                    path.components@.last()@,
                    self.taken_names(),
                );
                &&& self.contains_spec(full) ==> (r matches Err(e) && e matches
                    Error::AlreadyExists(n) && n@ == full)
                &&& !self.contains_spec(full) ==> (r matches Ok(name) && name@ == full)
            },
    {
        let taken = self.some_entry_has_path(path);
        if taken {
            return Err(Error::AlreadyExists(path.display()));
        }
        let n = path.components.len();
        if n == 0 {
            return Err(Error::InvalidFilename);
        }
        let ghost cv = views_of(path.components@);
        let mut name: String = path.components[n - 1].clone();
        let mut i: usize = n - 1;
        let ghost full = deduce_from(cv, n - 2, path.components@.last()@, self.taken_names());
        while i > 0 && self.contains(name.as_str())
            invariant
                0 <= i <= n - 1,
                n == path.components@.len(),
                cv == views_of(path.components@),
                full == deduce_from(cv, i - 1, name@, self.taken_names()),
            decreases i,
        {
            let mut prefixed = path.components[i - 1].clone();
            prefixed.append("/");
            prefixed.append(name.as_str());
            proof {
                reveal_strlit("/");
                assert("/"@ =~= seq!['/']);
                assert(prefixed@ =~= cv[i - 1] + seq!['/'] + name@);
            }
            name = prefixed;
            i = i - 1;
        }
        proof {
            assert(full == name@);
        }
        if self.contains(name.as_str()) {
            return Err(Error::AlreadyExists(name));
        }
        Ok(name)
    }

    fn some_entry_has_path(&self, path: &DirPath) -> (r: bool)
        ensures
            r == self.path_taken(views_of(path.components@)),
    {
        let n = self.entries.len();
        let mut i: usize = 0;
        while i < n
            invariant
                0 <= i <= n,
                n == self.entries@.len(),
                forall|j: int| 0 <= j < i ==> views_of(
                    (#[trigger] self.entries@[j]).session_path.components@,
                ) != views_of(path.components@),
            decreases n - i,
        {
            if self.entries[i].session_path.eq_path(path) {
                return true;
            }
            i = i + 1;
        }
        false
    }

    /// Whether the new entry collides with a recorded one.
    pub open spec fn conflict_spec(&self, entry: Entry) -> bool {
        exists|i: int| 0 <= i < self.entries@.len() && (#[trigger] self.entries@[i]).conflicts_with(
            &entry,
        )
    }

    /// Records an entry, refused exactly when it collides with one already
    /// recorded.
    pub fn extend(self, entry: Entry) -> (r: Result<Manifest, Error>)
        ensures
            self.conflict_spec(entry) <==> r is Err,
            r matches Ok(m) ==> m.entries@ == self.entries@.push(entry),
            r matches Err(e) ==> (e matches Error::AlreadyExists(n) && n == entry.name),
    {
        let n = self.entries.len();
        let mut i: usize = 0;
        while i < n
            invariant
                0 <= i <= n,
                n == self.entries@.len(),
                forall|j: int| 0 <= j < i ==> !(#[trigger] self.entries@[j]).conflicts_with(
                    &entry,
                ),
            decreases n - i,
        {
            let same_name = str_eq(self.entries[i].name.as_str(), entry.name.as_str());
            let same_script = str_eq(
                self.entries[i].script_name.as_str(),
                entry.script_name.as_str(),
            );
            let same_path = self.entries[i].session_path.eq_path(&entry.session_path);
            if same_name || same_script || same_path {
                return Err(Error::AlreadyExists(entry.name));
            }
            i = i + 1;
        }
        let mut entries = self.entries;
        entries.push(entry);
        Ok(Manifest { entries })
    }

    /// The first entry under this name, if any.
    pub fn entry(&self, name: &str) -> (r: Option<&Entry>)
        ensures
            r is Some <==> self.contains_spec(name@),
            r matches Some(e) ==> exists|i: int|
                {
                    &&& 0 <= i < self.entries@.len()
                    &&& *e == self.entries@[i]
                    &&& e.name@ == name@
                    &&& forall|j: int| 0 <= j < i ==> (#[trigger] self.entries@[j]).name@
                        != name@
                },
    {
        let n = self.entries.len();
        let mut i: usize = 0;
        while i < n
            invariant
                0 <= i <= n,
                n == self.entries@.len(),
                forall|j: int| 0 <= j < i ==> (#[trigger] self.entries@[j]).name@ != name@,
            decreases n - i,
        {
            if str_eq(self.entries[i].name.as_str(), name) {
                return Some(&self.entries[i]);
            }
            i = i + 1;
        }
        None
    }

    pub fn contains(&self, name: &str) -> (r: bool)
        ensures
            r == self.contains_spec(name@),
    {
        self.entry(name).is_some()
    }

    /// Takes the entries under this name out, refused exactly when none
    /// carries it.
    pub fn filter_out(self, name: &str) -> (r: Result<Manifest, Error>)
        ensures
            self.contains_spec(name@) <==> r is Ok,
            r matches Ok(m) ==> entry_views(m.entries@) == entry_views(
                self.entries@.filter(|e: Entry| e.name@ != name@),
            ),
            r matches Err(e) ==> (e matches Error::NotFound(n) && n@ == name@),
    {
        if !self.contains(name) {
            return Err(Error::NotFound(name.to_owned()));
        }
        let ghost pred = |e: Entry| e.name@ != name@;
        let n = self.entries.len();
        let mut kept: Vec<Entry> = Vec::new();
        let mut i: usize = 0;
        proof {
            assert(self.entries@.subrange(0, 0).filter(pred) =~= Seq::<Entry>::empty());
            assert(entry_views(kept@) =~= entry_views(
                self.entries@.subrange(0, 0).filter(pred),
            ));
        }
        while i < n
            invariant
                0 <= i <= n,
                n == self.entries@.len(),
                pred == (|e: Entry| e.name@ != name@),
                entry_views(kept@) == entry_views(
                    self.entries@.subrange(0, i as int).filter(pred),
                ),
            decreases n - i,
        {
            let ghost prefix = self.entries@.subrange(0, i as int);
            let ghost next = self.entries@.subrange(0, i + 1);
            proof {
                assert(next.drop_last() =~= prefix);
                reveal(Seq::filter);
            }
            let keep = !str_eq(self.entries[i].name.as_str(), name);
            if keep {
                let ghost kept_old = kept@;
                let e = self.entries[i].clone_entry();
                kept.push(e);
                proof {
                    assert(next.filter(pred) =~= prefix.filter(pred).push(
                        self.entries@[i as int],
                    ));
                    assert(entry_views(kept_old).len() == kept_old.len());
                    assert(entry_views(prefix.filter(pred)).len() == prefix.filter(
                        pred,
                    ).len());
                    assert forall|j: int| 0 <= j < kept_old.len() implies entry_view(
                        kept_old[j],
                    ) == entry_view(prefix.filter(pred)[j]) by {
                        assert(entry_views(kept_old)[j] == entry_view(kept_old[j]));
                        assert(entry_views(prefix.filter(pred))[j] == entry_view(
                            prefix.filter(pred)[j],
                        ));
                    }
                    assert(entry_view(e) == entry_view(self.entries@[i as int]));
                    assert(entry_views(kept@) =~= entry_views(next.filter(pred)));
                }
            } else {
                proof {
                    assert(next.filter(pred) =~= prefix.filter(pred));
                    assert(entry_views(kept@) =~= entry_views(next.filter(pred)));
                }
            }
            i = i + 1;
        }
        proof {
            assert(self.entries@.subrange(0, n as int) =~= self.entries@);
            assert(self.entries@.filter(pred) == self.entries@.filter(
                |e: Entry| e.name@ != name@,
            ));
        }
        Ok(Manifest { entries: kept })
    }

    /// All recorded names, in order.
    pub fn list(&self) -> (r: Vec<String>)
        ensures
            r@.len() == self.entries@.len(),
            forall|i: int| 0 <= i < r@.len() ==> (#[trigger] r@[i])@ == self.entries@[i].name@,
    {
        let n = self.entries.len();
        let mut r: Vec<String> = Vec::new();
        let mut i: usize = 0;
        while i < n
            invariant
                0 <= i <= n,
                n == self.entries@.len(),
                r@.len() == i,
                forall|j: int| 0 <= j < i ==> (#[trigger] r@[j])@ == self.entries@[j].name@,
            decreases n - i,
        {
            r.push(self.entries[i].name.clone());
            i = i + 1;
        }
        r
    }
}

} // verus!
