//! The files of an unzipped is2 archive, by path.

use vstd::prelude::*;

use crate::text::{chars_le, chars_of, lemma_text_le_antisymmetric, lemma_text_le_total, lemma_text_le_transitive, text_le};

verus! {

/// The map that a list of (path, content) entries gives, a later entry of a
/// path replacing an earlier one.
pub open spec fn entries_map(entries: Seq<(Seq<char>, Seq<u8>)>) -> Map<Seq<char>, Seq<u8>>
    decreases entries.len(),
{
    if entries.len() == 0 {
        Map::empty()
    } else {
        entries_map(entries.drop_last()).insert(entries.last().0, entries.last().1)
    }
}

/// No path occurs twice among the entries.
pub open spec fn paths_unique(entries: Seq<(Seq<char>, Seq<u8>)>) -> bool {
    forall|i: int, j: int| 0 <= i < j < entries.len() ==> entries[i].0 != entries[j].0
}

/// The entries, mathematically.
pub open spec fn entries_view(entries: Seq<(String, Vec<u8>)>) -> Seq<(Seq<char>, Seq<u8>)> {
    entries.map_values(|e: (String, Vec<u8>)| (e.0@, e.1@))
}

/// With unique paths, the map holds exactly the entries' paths, each with
/// its entry's content, and has as many paths as there are entries.
pub proof fn lemma_entries_map(entries: Seq<(Seq<char>, Seq<u8>)>)
    requires
        paths_unique(entries),
    ensures
        forall|path: Seq<char>| #[trigger]
            entries_map(entries).contains_key(path) <==> exists|i: int|
                0 <= i < entries.len() && #[trigger] entries[i].0 == path,
        forall|i: int| 0 <= i < entries.len() ==> #[trigger] entries_map(entries)[entries[i].0] == entries[i].1,
        entries_map(entries).dom().finite(),
        entries_map(entries).len() == entries.len(),
    decreases entries.len(),
{
    if entries.len() > 0 {
        let prefix = entries.drop_last();
        let last = entries.last();
        assert(paths_unique(prefix));
        lemma_entries_map(prefix);
        let n = entries.len() - 1;
        assert forall|path: Seq<char>| #[trigger]
            entries_map(entries).contains_key(path) <==> exists|i: int|
                0 <= i < entries.len() && #[trigger] entries[i].0 == path by {
            if entries_map(entries).contains_key(path) {
                if path == last.0 {
                    assert(entries[n].0 == path);
                } else {
                    assert(entries_map(prefix).contains_key(path));
                    let i = choose|i: int| 0 <= i < prefix.len() && #[trigger] prefix[i].0 == path;
                    assert(entries[i].0 == path);
                }
            }
            if exists|i: int| 0 <= i < entries.len() && #[trigger] entries[i].0 == path {
                let i = choose|i: int| 0 <= i < entries.len() && #[trigger] entries[i].0 == path;
                if i < n {
                    assert(prefix[i].0 == path);
                }
            }
        }
        assert forall|i: int| 0 <= i < entries.len() implies #[trigger] entries_map(entries)[entries[i].0]
            == entries[i].1 by {
            if i < n {
                assert(prefix[i] == entries[i]);
                assert(entries[i].0 != entries[n].0);
            }
        }
        assert(!entries_map(prefix).contains_key(last.0)) by {
            if entries_map(prefix).contains_key(last.0) {
                let i = choose|i: int| 0 <= i < prefix.len() && #[trigger] prefix[i].0 == last.0;
                assert(entries[i].0 == entries[n].0);
            }
        }
        assert(entries_map(entries).dom() =~= entries_map(prefix).dom().insert(last.0));
    } else {
        assert(entries_map(entries).dom() =~= Set::<Seq<char>>::empty());
    }
}

/// The files of an archive: each path once, with its content.
#[derive(Debug)]
pub struct Files {
    entries: Vec<(String, Vec<u8>)>,
}

impl View for Files {
    type V = Map<Seq<char>, Seq<u8>>;

    closed spec fn view(&self) -> Map<Seq<char>, Seq<u8>> {
        entries_map(entries_view(self.entries@))
    }
}

impl Files {
    #[verifier::type_invariant]
    spec fn paths_are_unique(self) -> bool {
        paths_unique(entries_view(self.entries@))
    }

    /// No files.
    pub fn new() -> (files: Files)
        ensures
            files@ == Map::<Seq<char>, Seq<u8>>::empty(),
    {
        let files = Files { entries: Vec::new() };
        proof {
            assert(entries_view(files.entries@) =~= Seq::<(Seq<char>, Seq<u8>)>::empty());
        }
        files
    }

    /// The number of files.
    pub fn len(&self) -> (n: usize)
        ensures
            n == self@.len(),
    {
        proof {
            use_type_invariant(self);
            lemma_entries_map(entries_view(self.entries@));
        }
        self.entries.len()
    }

    /// Where the entry of this path stands, if there is one.
    fn position(&self, path: &String) -> (r: Option<usize>)
        ensures
            match r {
                Some(i) => i < self.entries@.len() && self.entries@[i as int].0@ == path@,
                None => forall|i: int| 0 <= i < self.entries@.len() ==> #[trigger] self.entries@[i].0@ != path@,
            },
    {
        let mut i: usize = 0;
        while i < self.entries.len()
            invariant
                i <= self.entries@.len(),
                forall|j: int| 0 <= j < i ==> #[trigger] self.entries@[j].0@ != path@,
            decreases self.entries@.len() - i,
        {
            if self.entries[i].0 == *path {
                return Some(i);
            }
            i += 1;
        }
        None
    }

    proof fn lemma_position(&self, path: Seq<char>)
        requires
            paths_unique(entries_view(self.entries@)),
        ensures
            self@.contains_key(path) <==> exists|i: int|
                0 <= i < self.entries@.len() && #[trigger] self.entries@[i].0@ == path,
            forall|i: int|
                0 <= i < self.entries@.len() && #[trigger] self.entries@[i].0@ == path ==> self@[path]
                    == self.entries@[i].1@,
    {
        let view = entries_view(self.entries@);
        lemma_entries_map(view);
        if self@.contains_key(path) {
            let i = choose|i: int| 0 <= i < view.len() && #[trigger] view[i].0 == path;
            assert(self.entries@[i].0@ == path);
        }
        assert forall|i: int|
            0 <= i < self.entries@.len() && #[trigger] self.entries@[i].0@ == path implies self@[path]
                == self.entries@[i].1@ by {
            assert(view[i].0 == path);
        }
        if exists|i: int| 0 <= i < self.entries@.len() && #[trigger] self.entries@[i].0@ == path {
            let i = choose|i: int| 0 <= i < self.entries@.len() && #[trigger] self.entries@[i].0@ == path;
            assert(view[i].0 == path);
        }
    }

    /// Whether there is a file at this path.
    pub fn contains_key(&self, path: &str) -> (r: bool)
        ensures
            r == self@.contains_key(path@),
    {
        proof {
            use_type_invariant(self);
            self.lemma_position(path@);
        }
        let key = path.to_owned();
        self.position(&key).is_some()
    }

    /// The content of the file at this path.
    pub fn get(&self, path: &str) -> (r: Option<&Vec<u8>>)
        ensures
            match r {
                Some(content) => self@.contains_key(path@) && self@[path@] == content@,
                None => !self@.contains_key(path@),
            },
    {
        proof {
            use_type_invariant(self);
            self.lemma_position(path@);
        }
        let key = path.to_owned();
        match self.position(&key) {
            Some(i) => Some(&self.entries[i].1),
            None => None,
        }
    }

    /// Puts `content` at `path`, replacing any file there.
    pub fn insert(&mut self, path: String, content: Vec<u8>)
        ensures
            final(self)@ == old(self)@.insert(path@, content@),
    {
        proof {
            use_type_invariant(&*self);
            self.lemma_position(path@);
            lemma_entries_map(entries_view(self.entries@));
        }
        let ghost old_view = self@;
        let ghost key = path@;
        let ghost value = content@;
        match self.position(&path) {
            Some(i) => {
                let mut entries: Vec<(String, Vec<u8>)> = Vec::new();
                std::mem::swap(&mut entries, &mut self.entries);
                let ghost before = entries@;
                entries.set(i, (path, content));
                proof {
                    let v0 = entries_view(before);
                    let v1 = entries_view(entries@);
                    assert(forall|j: int| 0 <= j < v1.len() && j != i ==> v1[j] == v0[j]);
                    assert(v1[i as int] == (key, value));
                    assert(v0[i as int].0 == key);
                    assert forall|j: int| 0 <= j < v1.len() implies #[trigger] v1[j].0 == v0[j].0 by {}
                    assert(paths_unique(v1));
                    lemma_entries_map(v0);
                    lemma_entries_map(v1);
                    assert forall|p: Seq<char>| #[trigger]
                        entries_map(v1).contains_key(p) <==> old_view.insert(key, value).contains_key(p) by {
                        if old_view.contains_key(p) && p != key {
                            let j = choose|j: int| 0 <= j < v0.len() && #[trigger] v0[j].0 == p;
                            assert(v1[j].0 == p);
                        }
                        if entries_map(v1).contains_key(p) && p != key {
                            let j = choose|j: int| 0 <= j < v1.len() && #[trigger] v1[j].0 == p;
                            assert(v0[j].0 == p);
                        }
                        if p == key {
                            assert(v1[i as int].0 == p);
                        }
                    }
                    assert forall|p: Seq<char>| #[trigger]
                        entries_map(v1).contains_key(p) implies entries_map(v1)[p] == old_view.insert(
                        key,
                        value,
                    )[p] by {
                        let j = choose|j: int| 0 <= j < v1.len() && #[trigger] v1[j].0 == p;
                        if j != i {
                            assert(v0[j].0 == p);
                        }
                    }
                    assert(entries_map(v1) =~= old_view.insert(key, value));
                }
                self.entries = entries;
            },
            None => {
                let mut entries: Vec<(String, Vec<u8>)> = Vec::new();
                std::mem::swap(&mut entries, &mut self.entries);
                let ghost before = entries@;
                entries.push((path, content));
                proof {
                    let v0 = entries_view(before);
                    let v1 = entries_view(entries@);
                    assert(v1.drop_last() =~= v0);
                    assert(v1.last() == (key, value));
                    assert forall|j: int| 0 <= j < v0.len() implies #[trigger] v0[j].0 != key by {
                        assert(before[j].0@ == v0[j].0);
                    }
                    assert forall|a: int, b: int| 0 <= a < b < v1.len() implies v1[a].0 != v1[b].0 by {
                        if b == v0.len() {
                            assert(v1[a] == v0[a]);
                        } else {
                            assert(v1[a] == v0[a]);
                            assert(v1[b] == v0[b]);
                        }
                    }
                    assert(paths_unique(v1));
                }
                self.entries = entries;
            },
        }
    }

    /// Takes the file at this path out, giving its content.
    pub fn remove(&mut self, path: &str) -> (r: Option<Vec<u8>>)
        ensures
            final(self)@ == old(self)@.remove(path@),
            match r {
                Some(content) => old(self)@.contains_key(path@) && old(self)@[path@] == content@,
                None => !old(self)@.contains_key(path@),
            },
    {
        proof {
            use_type_invariant(&*self);
            self.lemma_position(path@);
            lemma_entries_map(entries_view(self.entries@));
        }
        let ghost old_view = self@;
        let key = path.to_owned();
        match self.position(&key) {
            Some(i) => {
                let mut entries: Vec<(String, Vec<u8>)> = Vec::new();
                std::mem::swap(&mut entries, &mut self.entries);
                let ghost before = entries@;
                let (_, content) = entries.remove(i);
                proof {
                    let v0 = entries_view(before);
                    let v1 = entries_view(entries@);
                    assert(v1 =~= v0.remove(i as int));
                    assert(v0[i as int].0 == path@);
                    assert forall|a: int, b: int| 0 <= a < b < v1.len() implies v1[a].0 != v1[b].0 by {
                        let a0 = if a < i { a } else { a + 1 };
                        let b0 = if b < i { b } else { b + 1 };
                        assert(v1[a] == v0[a0]);
                        assert(v1[b] == v0[b0]);
                    }
                    assert(paths_unique(v1));
                    lemma_entries_map(v0);
                    lemma_entries_map(v1);
                    assert forall|p: Seq<char>| #[trigger]
                        entries_map(v1).contains_key(p) <==> old_view.remove(path@).contains_key(p) by {
                        if old_view.contains_key(p) && p != path@ {
                            let j = choose|j: int| 0 <= j < v0.len() && #[trigger] v0[j].0 == p;
                            if j < i {
                                assert(v1[j].0 == p);
                            } else {
                                assert(v1[j - 1].0 == p);
                            }
                        }
                        if entries_map(v1).contains_key(p) {
                            let j = choose|j: int| 0 <= j < v1.len() && #[trigger] v1[j].0 == p;
                            let j0 = if j < i { j } else { j + 1 };
                            assert(v0[j0].0 == p);
                            assert(old_view.contains_key(p));
                            if p == path@ {
                                if j0 < i {
                                    assert(v0[j0].0 != v0[i as int].0);
                                } else {
                                    assert(v0[i as int].0 != v0[j0].0);
                                }
                            }
                        }
                    }
                    assert forall|p: Seq<char>| #[trigger]
                        entries_map(v1).contains_key(p) implies entries_map(v1)[p] == old_view.remove(
                        path@,
                    )[p] by {
                        let j = choose|j: int| 0 <= j < v1.len() && #[trigger] v1[j].0 == p;
                        if j < i {
                            assert(v0[j].0 == p);
                        } else {
                            assert(v0[j + 1].0 == p);
                        }
                    }
                    assert(entries_map(v1) =~= old_view.remove(path@));
                }
                self.entries = entries;
                Some(content)
            },
            None => {
                proof {
                    assert(old_view.remove(path@) =~= old_view);
                }
                None
            },
        }
    }

    /// Takes all files out, as (path, content) entries with distinct paths.
    pub fn take_entries(&mut self) -> (r: Vec<(String, Vec<u8>)>)
        ensures
            final(self)@ == Map::<Seq<char>, Seq<u8>>::empty(),
            paths_unique(entries_view(r@)),
            entries_map(entries_view(r@)) == old(self)@,
    {
        proof {
            use_type_invariant(&*self);
        }
        let mut entries: Vec<(String, Vec<u8>)> = Vec::new();
        std::mem::swap(&mut entries, &mut self.entries);
        proof {
            assert(entries_view(self.entries@) =~= Seq::<(Seq<char>, Seq<u8>)>::empty());
        }
        entries
    }
}

/// `path` is in the map, and sorts no later than any other path there.
pub open spec fn is_least_path(files: Map<Seq<char>, Seq<u8>>, path: Seq<char>) -> bool {
    files.contains_key(path) && forall|other: Seq<char>| #[trigger]
        files.contains_key(other) ==> text_le(path, other)
}

/// A map has at most one least path, so the file it names is determined
/// by the map alone.
pub proof fn lemma_least_path_unique(files: Map<Seq<char>, Seq<u8>>, a: Seq<char>, b: Seq<char>)
    requires
        is_least_path(files, a),
        is_least_path(files, b),
    ensures
        a == b,
{
    assert(files.contains_key(b));
    assert(files.contains_key(a));
    lemma_text_le_antisymmetric(a, b);
}

impl Files {
    /// The content of the file whose path sorts first, if there is any file.
    pub fn first_by_path(&self) -> (r: Option<&Vec<u8>>)
        ensures
            r is None <==> self@.dom().len() == 0,
            r matches Some(content) ==> exists|path: Seq<char>|
                is_least_path(self@, path) && #[trigger] self@[path] == content@,
    {
        proof {
            use_type_invariant(self);
            lemma_entries_map(entries_view(self.entries@));
        }
        let ghost view = entries_view(self.entries@);
        if self.entries.len() == 0 {
            return None;
        }
        let mut best: usize = 0;
        let mut best_chars = chars_of(self.entries[0].0.as_str());
        let mut i: usize = 1;
        proof {
            lemma_text_le_total(view[0].0, view[0].0);
        }
        while i < self.entries.len()
            invariant
                view == entries_view(self.entries@),
                1 <= i <= self.entries@.len(),
                best < i,
                best_chars@ == view[best as int].0,
                forall|j: int| 0 <= j < i ==> text_le(view[best as int].0, #[trigger] view[j].0),
            decreases self.entries@.len() - i,
        {
            let chars = chars_of(self.entries[i].0.as_str());
            proof {
                lemma_text_le_total(best_chars@, chars@);
            }
            if !chars_le(&best_chars, &chars) {
                proof {
                    assert forall|j: int| 0 <= j < i + 1 implies text_le(chars@, #[trigger] view[j].0) by {
                        if j < i {
                            lemma_text_le_transitive(chars@, best_chars@, view[j].0);
                        } else {
                            lemma_text_le_total(chars@, chars@);
                        }
                    }
                }
                best = i;
                best_chars = chars;
            }
            i += 1;
        }
        proof {
            let path = view[best as int].0;
            assert forall|other: Seq<char>| #[trigger] self@.contains_key(other) implies text_le(path, other) by {
                let j = choose|j: int| 0 <= j < view.len() && #[trigger] view[j].0 == other;
                assert(text_le(view[best as int].0, view[j].0));
            }
            assert(self@[path] == view[best as int].1);
        }
        Some(&self.entries[best].1)
    }
}

impl Clone for Files {
    /// A copy of every file.
    fn clone(&self) -> (r: Files)
        ensures
            r@ == self@,
    {
        proof {
            use_type_invariant(self);
        }
        let mut entries: Vec<(String, Vec<u8>)> = Vec::new();
        let mut i: usize = 0;
        while i < self.entries.len()
            invariant
                i <= self.entries@.len(),
                paths_unique(entries_view(self.entries@)),
                entries_view(entries@) =~= entries_view(self.entries@).take(i as int),
            decreases self.entries@.len() - i,
        {
            let path = self.entries[i].0.clone();
            let content = self.entries[i].1.clone();
            proof {
                assert(content@ =~= self.entries@[i as int].1@);
            }
            let ghost before = entries@;
            entries.push((path, content));
            proof {
                assert(entries_view(entries@) =~= entries_view(before).push(entries_view(self.entries@)[i as int]));
                assert(entries_view(self.entries@).take(i + 1) =~= entries_view(self.entries@).take(i as int).push(
                    entries_view(self.entries@)[i as int],
                ));
            }
            i += 1;
        }
        proof {
            assert(entries_view(self.entries@).take(i as int) =~= entries_view(self.entries@));
        }
        Files { entries }
    }
}

} // verus!
