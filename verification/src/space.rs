//! A table from full paths to stored values, with lookup by partial path.

use vstd::prelude::*;
use crate::path::{spec_ends_with, FullPath, Path};
use crate::ty::{spec_ty_key, Ty};

verus! {

/// The first of `keys`, from index `from` on, that ends with `path`; `path`
/// itself where none does.
pub open spec fn spec_first_match(
    keys: Seq<Seq<Seq<char>>>,
    path: Seq<Seq<char>>,
    from: int,
) -> Seq<Seq<char>>
    decreases keys.len() - from,
{
    if from < 0 || from >= keys.len() {
        path
    } else if spec_ends_with(keys[from], path) {
        keys[from]
    } else {
        spec_first_match(keys, path, from + 1)
    }
}

/// Where no key from `from` on ends with `path`, the path comes back as it is.
pub proof fn lemma_first_match_none(keys: Seq<Seq<Seq<char>>>, path: Seq<Seq<char>>, from: int)
    requires
        0 <= from,
        forall|j: int| from <= j < keys.len() ==> !spec_ends_with(#[trigger] keys[j], path),
    ensures
        spec_first_match(keys, path, from) == path,
    decreases keys.len() - from,
{
    if from < keys.len() {
        lemma_first_match_none(keys, path, from + 1);
    }
}

/// Where `keys[at]` ends with `path` and no key between `from` and `at` does,
/// `keys[at]` is the match.
pub proof fn lemma_first_match_at(
    keys: Seq<Seq<Seq<char>>>,
    path: Seq<Seq<char>>,
    from: int,
    at: int,
)
    requires
        0 <= from <= at < keys.len(),
        spec_ends_with(keys[at], path),
        forall|j: int| from <= j < at ==> !spec_ends_with(#[trigger] keys[j], path),
    ensures
        spec_first_match(keys, path, from) == keys[at],
    decreases at - from,
{
    if from < at {
        lemma_first_match_at(keys, path, from + 1, at);
    }
}

/// Entries stored under full paths. No two entries share a full path; the
/// entries keep the order in which their paths were first stored.
pub struct Space<T> {
    keys: Vec<FullPath>,
    values: Vec<T>,
}

impl<T> View for Space<T> {
    type V = Map<Seq<Seq<char>>, T>;

    /// The stored value of each stored full path.
    open spec fn view(&self) -> Map<Seq<Seq<char>>, T> {
        Map::new(
            |k: Seq<Seq<char>>| self.spec_keys().contains(k),
            |k: Seq<Seq<char>>| self.spec_values()[self.spec_keys().index_of(k)],
        )
    }
}

impl<T> Space<T> {
    /// The stored full paths, in the order in which they were first stored.
    pub closed spec fn spec_keys(&self) -> Seq<Seq<Seq<char>>> {
        self.keys@.map_values(|k: FullPath| k@)
    }

    /// The stored values, each at the index of its path in `spec_keys`.
    pub closed spec fn spec_values(&self) -> Seq<T> {
        self.values@
    }

    /// Every path has its value, and no path is stored twice.
    pub open spec fn wf(&self) -> bool {
        &&& self.spec_keys().len() == self.spec_values().len()
        &&& self.spec_keys().no_duplicates()
    }

    /// What a partial path refers to here: the first stored full path that
    /// ends with it, in storage order, or the path itself taken as full.
    pub open spec fn spec_resolve(&self, path: Seq<Seq<char>>) -> Seq<Seq<char>> {
        spec_first_match(self.spec_keys(), path, 0)
    }

    /// The value that a partial path leads to, if any.
    pub open spec fn spec_lookup(&self, path: Seq<Seq<char>>) -> Option<T> {
        let key = self.spec_resolve(path);
        if self@.contains_key(key) {
            Some(self@[key])
        } else {
            None
        }
    }

    /// In a well-formed space the value of the path at index `i` is the
    /// value at index `i`.
    pub proof fn lemma_value_at(&self, i: int)
        requires
            self.wf(),
            0 <= i < self.spec_keys().len(),
        ensures
            self@.contains_key(self.spec_keys()[i]),
            self@[self.spec_keys()[i]] == self.spec_values()[i],
    {
        let k = self.spec_keys()[i];
        assert(self.spec_keys().contains(k));
        let j = self.spec_keys().index_of(k);
        assert(self.spec_keys()[j] == k);
    }

    /// The empty space.
    pub fn new() -> (r: Self)
        ensures
            r.wf(),
            r.spec_keys() == Seq::<Seq<Seq<char>>>::empty(),
            r@ == Map::<Seq<Seq<char>>, T>::empty(),
    {
        let r = Space { keys: Vec::new(), values: Vec::new() };
        assert(r.spec_keys() =~= Seq::<Seq<Seq<char>>>::empty());
        assert(r@ =~= Map::<Seq<Seq<char>>, T>::empty());
        r
    }

    fn position(&self, name: &FullPath) -> (r: Option<usize>)
        requires
            self.wf(),
        ensures
            match r {
                Some(i) => i < self.spec_keys().len() && self.spec_keys()[i as int] == name@,
                None => !self.spec_keys().contains(name@),
            },
    {
        let mut i: usize = 0;
        while i < self.keys.len()
            invariant
                i <= self.keys.len(),
                self.keys.len() == self.spec_keys().len(),
                forall|j: int| 0 <= j < i ==> self.spec_keys()[j] != name@,
            decreases self.keys.len() - i,
        {
            if self.keys[i].same(name) {
                return Some(i);
            }
            i += 1;
        }
        None
    }

    /// Stores `entity` under `path`, in place of what was stored there, and
    /// hands back the stored value.
    pub fn push(&mut self, path: FullPath, entity: T) -> (r: &T)
        requires
            old(self).wf(),
        ensures
            final(self).wf(),
            final(self)@ == old(self)@.insert(path@, entity),
            *r == entity,
            old(self)@.contains_key(path@) ==> final(self).spec_keys() == old(self).spec_keys(),
            !old(self)@.contains_key(path@) ==> final(self).spec_keys() == old(self).spec_keys().push(
                path@,
            ),
    {
        let ghost before = *self;
        let at: usize = match self.position(&path) {
            Some(i) => {
                self.values.set(i, entity);
                i
            },
            None => {
                self.keys.push(path);
                self.values.push(entity);
                assert(self.spec_keys() =~= before.spec_keys().push(path@));
                assert forall|a: int, b: int|
                    0 <= a < self.spec_keys().len() && 0 <= b < self.spec_keys().len() && a
                        != b implies self.spec_keys()[a] != self.spec_keys()[b] by {
                    if a < before.spec_keys().len() {
                        assert(before.spec_keys().contains(before.spec_keys()[a]));
                    }
                    if b < before.spec_keys().len() {
                        assert(before.spec_keys().contains(before.spec_keys()[b]));
                    }
                }
                self.values.len() - 1
            },
        };
        proof {
            assert(self.spec_keys()[at as int] == path@);
            assert forall|k: Seq<Seq<char>>| self@.contains_key(k) <==> before@.insert(
                path@,
                entity,
            ).contains_key(k) by {
                if self.spec_keys().contains(k) {
                    let j = self.spec_keys().index_of(k);
                    if j < before.spec_keys().len() && k != path@ {
                        assert(before.spec_keys()[j] == k);
                    }
                }
                if before.spec_keys().contains(k) {
                    let j = before.spec_keys().index_of(k);
                    assert(self.spec_keys()[j] == k);
                }
            }
            assert forall|k: Seq<Seq<char>>| self@.contains_key(k) implies self@[k]
                == before@.insert(path@, entity)[k] by {
                let j = self.spec_keys().index_of(k);
                self.lemma_value_at(j);
                if k != path@ {
                    assert(before.spec_keys()[j] == k);
                    before.lemma_value_at(j);
                } else {
                    assert(j == at);
                }
            }
            assert(self@ =~= before@.insert(path@, entity));
        }
        &self.values[at]
    }

    /// The value stored under `name`, if any.
    pub fn find(&self, name: &FullPath) -> (r: Option<&T>)
        requires
            self.wf(),
        ensures
            match r {
                Some(v) => self@.contains_key(name@) && *v == self@[name@],
                None => !self@.contains_key(name@),
            },
    {
        match self.position(name) {
            Some(i) => {
                proof {
                    self.lemma_value_at(i as int);
                }
                Some(&self.values[i])
            },
            None => None,
        }
    }

    /// The full path that `path` refers to here: the first stored one that
    /// ends with it, or `path` itself where none does.
    pub fn resolve(&self, path: &Path) -> (r: FullPath)
        ensures
            r@ == self.spec_resolve(path@),
    {
        let mut i: usize = 0;
        while i < self.keys.len()
            invariant
                i <= self.keys.len(),
                self.keys.len() == self.spec_keys().len(),
                self.spec_resolve(path@) == spec_first_match(self.spec_keys(), path@, i as int),
            decreases self.keys.len() - i,
        {
            if self.keys[i].ends_with(path) {
                return self.keys[i].clone();
            }
            i += 1;
        }
        path.clone().into_full()
    }

    /// The value that `path` leads to: what is stored under the full path
    /// that it resolves to.
    pub fn lookup(&self, path: &Path) -> (r: Option<&T>)
        requires
            self.wf(),
        ensures
            match (r, self.spec_lookup(path@)) {
                (Some(v), Some(w)) => *v == w,
                (None, None) => true,
                _ => false,
            },
    {
        let full = self.resolve(path);
        self.find(&full)
    }
}

impl Space<Ty> {
    /// Stores a type under its own name.
    pub fn push_ty(&mut self, ty: Ty) -> (r: &Ty)
        requires
            old(self).wf(),
        ensures
            final(self).wf(),
            final(self)@ == old(self)@.insert(spec_ty_key(ty), ty),
            *r == ty,
    {
        let mut segments: Vec<String> = Vec::new();
        segments.push(ty.name());
        assert(crate::path::segments_view(segments@) =~= spec_ty_key(ty));
        self.push(FullPath::new(segments), ty)
    }
}

impl<T> Default for Space<T> {
    fn default() -> (r: Self)
        ensures
            r.wf(),
            r@ == Map::<Seq<Seq<char>>, T>::empty(),
    {
        Space::new()
    }
}

/// What a partial path resolves to is the path itself or a stored full
/// path that ends with it.
pub proof fn lemma_first_match_is_match(
    keys: Seq<Seq<Seq<char>>>,
    path: Seq<Seq<char>>,
    from: int,
)
    requires
        0 <= from,
    ensures
        spec_first_match(keys, path, from) == path || exists|i: int|
            from <= i < keys.len() && spec_ends_with(#[trigger] keys[i], path) && spec_first_match(
                keys,
                path,
                from,
            ) == keys[i],
    decreases keys.len() - from,
{
    if from < keys.len() && !spec_ends_with(keys[from], path) {
        lemma_first_match_is_match(keys, path, from + 1);
    }
}

/// Where every stored full path has `n` segments, a partial path of at
/// least `n` segments resolves to itself: it is a stored path, or no stored
/// path ends with it.
pub proof fn lemma_resolve_fixed_len<T>(space: Space<T>, path: Seq<Seq<char>>, n: nat)
    requires
        forall|k: Seq<Seq<char>>| #[trigger] space@.contains_key(k) ==> k.len() == n,
        path.len() >= n,
    ensures
        space.spec_resolve(path) == path,
{
    let keys = space.spec_keys();
    lemma_first_match_is_match(keys, path, 0);
    if space.spec_resolve(path) != path {
        let i = choose|i: int|
            0 <= i < keys.len() && spec_ends_with(#[trigger] keys[i], path) && spec_first_match(
                keys,
                path,
                0,
            ) == keys[i];
        assert(keys.contains(keys[i]));
        assert(space@.contains_key(keys[i]));
        crate::path::lemma_ends_with_same_len(keys[i], path);
    }
}

/// After a value is stored under a full path, that path leads to that value.
pub proof fn lemma_find_after_push<T>(
    before: Space<T>,
    after: Space<T>,
    path: Seq<Seq<char>>,
    value: T,
)
    requires
        after@ == before@.insert(path, value),
    ensures
        after@.contains_key(path),
        after@[path] == value,
{
}

/// A partial path that exactly one stored full path ends with resolves to
/// that full path.
pub proof fn lemma_resolve_unique<T>(space: Space<T>, path: Seq<Seq<char>>, at: int)
    requires
        0 <= at < space.spec_keys().len(),
        spec_ends_with(space.spec_keys()[at], path),
        forall|j: int|
            0 <= j < space.spec_keys().len() && j != at ==> !spec_ends_with(
                #[trigger] space.spec_keys()[j],
                path,
            ),
    ensures
        space.spec_resolve(path) == space.spec_keys()[at],
{
    lemma_first_match_at(space.spec_keys(), path, 0, at);
}

/// A partial path that no stored full path ends with resolves to itself.
pub proof fn lemma_resolve_no_match<T>(space: Space<T>, path: Seq<Seq<char>>)
    requires
        forall|j: int|
            0 <= j < space.spec_keys().len() ==> !spec_ends_with(
                #[trigger] space.spec_keys()[j],
                path,
            ),
    ensures
        space.spec_resolve(path) == path,
{
    lemma_first_match_none(space.spec_keys(), path, 0);
}

} // verus!
