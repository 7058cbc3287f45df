//! The user store: an in-memory mapping from string identifier to user
//! record. Its mathematical model is a `Map<Seq<char>, UserView>`; every
//! operation's contract is stated against that map.

use vstd::prelude::*;

verus! {

/// A user record: a caller-supplied identifier plus a username.
#[derive(Debug)]
pub struct User {
    pub id: String,
    pub username: String,
}

/// The mathematical value of a `User`: both fields as character sequences.
pub ghost struct UserView {
    pub id: Seq<char>,
    pub username: Seq<char>,
}

impl View for User {
    type V = UserView;

    open spec fn view(&self) -> UserView {
        UserView { id: self.id@, username: self.username@ }
    }
}

impl Clone for User {
    fn clone(&self) -> (r: Self)
        ensures
            r == *self,
    {
        User { id: self.id.clone(), username: self.username.clone() }
    }
}

/// One stored entry. The key is kept separately from the record: an update
/// keyed by the request path stores the body's record verbatim, so the
/// record's own `id` field may differ from the key it is stored under.
struct Entry {
    key: String,
    value: User,
}

/// No two pairs share a key.
pub open spec fn unique_keys(pairs: Seq<(Seq<char>, UserView)>) -> bool {
    forall|i: int, j: int| 0 <= i < j < pairs.len() ==> pairs[i].0 != pairs[j].0
}

/// Whether some pair carries the key `k`.
pub open spec fn has_key(pairs: Seq<(Seq<char>, UserView)>, k: Seq<char>) -> bool {
    exists|i: int| 0 <= i < pairs.len() && pairs[i].0 == k
}

/// The record stored under `k` (meaningful when `has_key` holds and keys are
/// unique).
pub open spec fn value_at(pairs: Seq<(Seq<char>, UserView)>, k: Seq<char>) -> UserView {
    pairs[choose|i: int| 0 <= i < pairs.len() && pairs[i].0 == k].1
}

/// The mapping a sequence of key/record pairs denotes.
pub open spec fn map_of(pairs: Seq<(Seq<char>, UserView)>) -> Map<Seq<char>, UserView> {
    Map::new(|k: Seq<char>| has_key(pairs, k), |k: Seq<char>| value_at(pairs, k))
}

/// What `map_of` means, pair by pair: membership, values, finiteness, and
/// that the map is exactly as large as the pair sequence.
proof fn lemma_map_of(pairs: Seq<(Seq<char>, UserView)>)
    requires
        unique_keys(pairs),
    ensures
        map_of(pairs).dom().finite(),
        map_of(pairs).len() == pairs.len(),
        forall|k: Seq<char>| map_of(pairs).contains_key(k) <==> has_key(pairs, k),
        forall|i: int|
            0 <= i < pairs.len() ==> map_of(pairs).contains_key(#[trigger] pairs[i].0)
                && map_of(pairs)[pairs[i].0] == pairs[i].1,
{
    broadcast use vstd::set::group_set_axioms;
    broadcast use vstd::seq_lib::seq_to_set_is_finite;

    let keys = pairs.map_values(|p: (Seq<char>, UserView)| p.0);
    assert(keys.no_duplicates());
    assert(map_of(pairs).dom() =~= keys.to_set()) by {
        assert forall|k: Seq<char>| map_of(pairs).dom().contains(k) implies keys.to_set().contains(
            k,
        ) by {
            let i = choose|i: int| 0 <= i < pairs.len() && pairs[i].0 == k;
            assert(keys[i] == k);
        }
        assert forall|k: Seq<char>| keys.to_set().contains(k) implies map_of(
            pairs,
        ).dom().contains(k) by {
            let i = choose|i: int| 0 <= i < keys.len() && keys[i] == k;
            assert(pairs[i].0 == k);
        }
    }
    keys.unique_seq_to_set();
    assert forall|i: int| 0 <= i < pairs.len() implies map_of(pairs).contains_key(
        #[trigger] pairs[i].0,
    ) && map_of(pairs)[pairs[i].0] == pairs[i].1 by {
        let c = choose|c: int| 0 <= c < pairs.len() && pairs[c].0 == pairs[i].0;
        assert(c == i);
    }
}

/// Removing the pair at index `i` removes exactly its key from the denoted
/// mapping and leaves every other key bound as before.
proof fn lemma_map_of_remove(pairs: Seq<(Seq<char>, UserView)>, i: int)
    requires
        unique_keys(pairs),
        0 <= i < pairs.len(),
    ensures
        unique_keys(pairs.remove(i)),
        !has_key(pairs.remove(i), pairs[i].0),
        map_of(pairs.remove(i)) == map_of(pairs).remove(pairs[i].0),
{
    let rest = pairs.remove(i);
    pairs.remove_ensures(i);
    assert forall|j: int, l: int| 0 <= j < l < rest.len() implies rest[j].0 != rest[l].0 by {
        let j0: int = if j < i {
            j
        } else {
            j + 1
        };
        let l0: int = if l < i {
            l
        } else {
            l + 1
        };
        assert(rest[j] == pairs[j0] && rest[l] == pairs[l0]);
    }
    assert forall|j: int| 0 <= j < rest.len() implies (#[trigger] rest[j]).0 != pairs[i].0 by {
        let j0: int = if j < i {
            j
        } else {
            j + 1
        };
        assert(rest[j] == pairs[j0] && j0 != i);
    }
    lemma_map_of(pairs);
    lemma_map_of(rest);
    assert(map_of(rest) =~= map_of(pairs).remove(pairs[i].0)) by {
        assert forall|k: Seq<char>| map_of(rest).contains_key(k) implies map_of(pairs).remove(
            pairs[i].0,
        ).contains_key(k) && map_of(pairs).remove(pairs[i].0)[k] == map_of(rest)[k] by {
            let j = choose|j: int| 0 <= j < rest.len() && rest[j].0 == k;
            let j0: int = if j < i {
                j
            } else {
                j + 1
            };
            assert(rest[j] == pairs[j0]);
            assert(map_of(pairs)[k] == pairs[j0].1);
            assert(map_of(rest)[k] == rest[j].1);
        }
        assert forall|k: Seq<char>| map_of(pairs).remove(pairs[i].0).contains_key(k) implies map_of(
            rest,
        ).contains_key(k) by {
            let j0 = choose|j0: int| 0 <= j0 < pairs.len() && pairs[j0].0 == k;
            assert(j0 != i);
            let j: int = if j0 < i {
                j0
            } else {
                j0 - 1
            };
            assert(rest[j] == pairs[j0]);
        }
    }
}

/// Appending a pair whose key is fresh binds exactly that key in the denoted
/// mapping and leaves every other key bound as before.
proof fn lemma_map_of_push(pairs: Seq<(Seq<char>, UserView)>, p: (Seq<char>, UserView))
    requires
        unique_keys(pairs),
        !has_key(pairs, p.0),
    ensures
        unique_keys(pairs.push(p)),
        map_of(pairs.push(p)) == map_of(pairs).insert(p.0, p.1),
{
    let ext = pairs.push(p);
    assert forall|j: int, l: int| 0 <= j < l < ext.len() implies ext[j].0 != ext[l].0 by {
        if l < ext.len() - 1 {
            assert(ext[j] == pairs[j] && ext[l] == pairs[l]);
        } else {
            assert(ext[j] == pairs[j] && ext[l] == p);
        }
    }
    lemma_map_of(pairs);
    lemma_map_of(ext);
    assert(map_of(ext) =~= map_of(pairs).insert(p.0, p.1)) by {
        assert(ext[ext.len() - 1] == p);
        assert forall|k: Seq<char>| map_of(ext).contains_key(k) && k != p.0 implies map_of(
            pairs,
        ).contains_key(k) && map_of(pairs)[k] == map_of(ext)[k] by {
            let j = choose|j: int| 0 <= j < ext.len() && ext[j].0 == k;
            assert(j < ext.len() - 1);
            assert(ext[j] == pairs[j]);
            assert(map_of(pairs)[k] == pairs[j].1);
        }
        assert forall|k: Seq<char>| map_of(pairs).contains_key(k) implies map_of(
            ext,
        ).contains_key(k) by {
            let j = choose|j: int| 0 <= j < pairs.len() && pairs[j].0 == k;
            assert(ext[j] == pairs[j]);
        }
    }
}

/// The in-memory user store. Its value is the mapping from identifier to the
/// record stored under it; no identifier is stored twice.
pub struct UserStore {
    entries: Vec<Entry>,
}

impl View for UserStore {
    type V = Map<Seq<char>, UserView>;

    closed spec fn view(&self) -> Map<Seq<char>, UserView> {
        map_of(self.pairs())
    }
}

impl UserStore {
    /// The key/record pairs currently held, in storage order.
    closed spec fn pairs(&self) -> Seq<(Seq<char>, UserView)> {
        self.entries@.map_values(|e: Entry| (e.key@, e.value@))
    }

    /// Well-formedness: no two entries share a key, so each identifier maps
    /// to exactly one record.
    pub closed spec fn inv(&self) -> bool {
        unique_keys(self.pairs())
    }

    /// A store starts empty.
    pub fn new() -> (r: UserStore)
        ensures
            r.inv(),
            r@ == Map::<Seq<char>, UserView>::empty(),
    {
        let r = UserStore { entries: Vec::new() };
        proof {
            assert(r@ =~= Map::<Seq<char>, UserView>::empty());
        }
        r
    }

    /// The index of the entry keyed by `key`, if one is present.
    fn find_index(&self, key: &String) -> (r: Option<usize>)
        ensures
            match r {
                Some(i) => i < self.entries@.len() && self.entries@[i as int].key@ == key@,
                None => forall|i: int|
                    0 <= i < self.entries@.len() ==> (#[trigger] self.entries@[i].key)@ != key@,
            },
    {
        let mut i: usize = 0;
        while i < self.entries.len()
            invariant
                i <= self.entries@.len(),
                forall|j: int| 0 <= j < i ==> (#[trigger] self.entries@[j].key)@ != key@,
            decreases self.entries@.len() - i,
        {
            if self.entries[i].key == *key {
                return Some(i);
            }
            i = i + 1;
        }
        None
    }

    /// Every pair's key is its entry's key; used to move between the entry
    /// sequence and its mathematical pairs.
    proof fn lemma_pairs_index(&self)
        ensures
            self.pairs().len() == self.entries@.len(),
            forall|j: int|
                0 <= j < self.entries@.len() ==> #[trigger] self.pairs()[j] == (
                self.entries@[j].key@,
                self.entries@[j].value@,
            ),
    {
    }

    /// When `find_index` finds nothing, no pair carries the key.
    proof fn lemma_absent(&self, k: Seq<char>)
        requires
            forall|i: int| 0 <= i < self.entries@.len() ==> (#[trigger] self.entries@[i].key)@ != k,
        ensures
            !has_key(self.pairs(), k),
    {
        self.lemma_pairs_index();
        assert forall|i: int| 0 <= i < self.pairs().len() implies (#[trigger] self.pairs()[i]).0
            != k by {
            assert(self.pairs()[i].0 == self.entries@[i].key@);
        }
    }

    /// Unconditionally binds `key` to `value`, overwriting any record stored
    /// under it before; never fails.
    pub fn insert(&mut self, key: String, value: User)
        requires
            old(self).inv(),
        ensures
            final(self).inv(),
            final(self)@ == old(self)@.insert(key@, value@),
    {
        let ghost kv = key@;
        let ghost vv = value@;
        let ghost p0 = self.pairs();
        match self.find_index(&key) {
            Some(i) => {
                proof {
                    self.lemma_pairs_index();
                    assert(p0[i as int].0 == kv);
                    lemma_map_of_remove(p0, i as int);
                }
                let ghost s0 = self.entries@;
                self.entries.remove(i);
                proof {
                    s0.remove_ensures(i as int);
                    p0.remove_ensures(i as int);
                    old(self).lemma_pairs_index();
                    self.lemma_pairs_index();
                    assert forall|j: int| 0 <= j < self.pairs().len() implies #[trigger] self.pairs()[j]
                        == p0.remove(i as int)[j] by {
                        let j0: int = if j < i {
                            j
                        } else {
                            j + 1
                        };
                        assert(self.entries@[j] == s0[j0]);
                        assert(p0.remove(i as int)[j] == p0[j0]);
                    }
                    assert(self.pairs() =~= p0.remove(i as int));
                }
            },
            None => {
                proof {
                    self.lemma_absent(kv);
                }
            },
        }
        let ghost p1 = self.pairs();
        proof {
            assert(!has_key(p1, kv));
            assert(unique_keys(p1));
        }
        self.entries.push(Entry { key, value });
        proof {
            self.lemma_pairs_index();
            assert forall|j: int| 0 <= j < self.pairs().len() implies #[trigger] self.pairs()[j]
                == p1.push((kv, vv))[j] by {
                if j < self.pairs().len() - 1 {
                    assert(self.pairs()[j] == p1[j]);
                }
            }
            assert(self.pairs() =~= p1.push((kv, vv)));
            lemma_map_of_push(p1, (kv, vv));
            assert(self@ =~= old(self)@.insert(kv, vv));
        }
    }

    /// Returns a copy of the record stored under `id`, if one is present.
    pub fn get(&self, id: &String) -> (r: Option<User>)
        requires
            self.inv(),
        ensures
            match r {
                Some(u) => self@.contains_key(id@) && u@ == self@[id@],
                None => !self@.contains_key(id@),
            },
    {
        proof {
            lemma_map_of(self.pairs());
        }
        match self.find_index(id) {
            Some(i) => {
                proof {
                    self.lemma_pairs_index();
                    assert(self.pairs()[i as int].0 == id@);
                    assert(self@[id@] == self.pairs()[i as int].1);
                }
                Some(self.entries[i].value.clone())
            },
            None => {
                proof {
                    self.lemma_absent(id@);
                }
                None
            },
        }
    }

    /// Overwrites the record under `id` with `value` when `id` is present;
    /// reports whether it was. An absent `id` leaves the store untouched.
    pub fn update(&mut self, id: &String, value: User) -> (r: bool)
        requires
            old(self).inv(),
        ensures
            final(self).inv(),
            r == old(self)@.contains_key(id@),
            old(self)@.contains_key(id@) ==> final(self)@ == old(self)@.insert(id@, value@),
            !old(self)@.contains_key(id@) ==> final(self)@ == old(self)@,
    {
        proof {
            lemma_map_of(self.pairs());
        }
        match self.find_index(id) {
            Some(i) => {
                proof {
                    self.lemma_pairs_index();
                    assert(has_key(self.pairs(), id@)) by {
                        assert(self.pairs()[i as int].0 == id@);
                    }
                }
                self.insert(id.clone(), value);
                true
            },
            None => {
                proof {
                    self.lemma_absent(id@);
                }
                false
            },
        }
    }

    /// Removes the record under `id`; reports whether one was present.
    pub fn remove(&mut self, id: &String) -> (r: bool)
        requires
            old(self).inv(),
        ensures
            final(self).inv(),
            final(self)@ == old(self)@.remove(id@),
            r == old(self)@.contains_key(id@),
    {
        let ghost p0 = self.pairs();
        proof {
            lemma_map_of(p0);
        }
        match self.find_index(id) {
            Some(i) => {
                proof {
                    self.lemma_pairs_index();
                    assert(p0[i as int].0 == id@);
                    lemma_map_of_remove(p0, i as int);
                }
                let ghost s0 = self.entries@;
                self.entries.remove(i);
                proof {
                    s0.remove_ensures(i as int);
                    p0.remove_ensures(i as int);
                    old(self).lemma_pairs_index();
                    self.lemma_pairs_index();
                    assert forall|j: int| 0 <= j < self.pairs().len() implies #[trigger] self.pairs()[j]
                        == p0.remove(i as int)[j] by {
                        let j0: int = if j < i {
                            j
                        } else {
                            j + 1
                        };
                        assert(self.entries@[j] == s0[j0]);
                        assert(p0.remove(i as int)[j] == p0[j0]);
                    }
                    assert(self.pairs() =~= p0.remove(i as int));
                }
                true
            },
            None => {
                proof {
                    self.lemma_absent(id@);
                    assert(self@ =~= old(self)@.remove(id@));
                }
                false
            },
        }
    }

    /// The number of records currently stored.
    pub fn len(&self) -> (r: usize)
        requires
            self.inv(),
        ensures
            r == self@.len(),
    {
        proof {
            lemma_map_of(self.pairs());
        }
        self.entries.len()
    }

    /// Returns a snapshot copy of every record currently stored, in an
    /// unspecified order: one record per identifier present, each the record
    /// stored under its identifier, and jointly covering the whole store.
    pub fn list(&self) -> (r: Vec<User>)
        requires
            self.inv(),
        ensures
            r@.len() == self@.len(),
            exists|ks: Seq<Seq<char>>| #[trigger] lists_map(self@, views_of(r@), ks),
    {
        let mut r: Vec<User> = Vec::new();
        let mut i: usize = 0;
        while i < self.entries.len()
            invariant
                i <= self.entries@.len(),
                r@.len() == i,
                forall|j: int| 0 <= j < i ==> (#[trigger] r@[j])@ == self.pairs()[j].1,
            decreases self.entries@.len() - i,
        {
            proof {
                self.lemma_pairs_index();
            }
            r.push(self.entries[i].value.clone());
            i = i + 1;
        }
        proof {
            lemma_map_of(self.pairs());
            self.lemma_pairs_index();
            let ks = self.pairs().map_values(|p: (Seq<char>, UserView)| p.0);
            let vs = views_of(r@);
            assert forall|j: int, l: int| 0 <= j < l < ks.len() implies ks[j] != ks[l] by {
                assert(ks[j] == self.pairs()[j].0 && ks[l] == self.pairs()[l].0);
            }
            assert forall|j: int| 0 <= j < ks.len() implies self@.contains_key(#[trigger] ks[j])
                && self@[ks[j]] == vs[j] by {
                assert(ks[j] == self.pairs()[j].0);
                assert(vs[j] == r@[j]@);
            }
            assert forall|k: Seq<char>| self@.contains_key(k) implies ks.contains(k) by {
                let j = choose|j: int| 0 <= j < self.pairs().len() && self.pairs()[j].0 == k;
                assert(ks[j] == k);
            }
            assert(lists_map(self@, vs, ks));
        }
        r
    }
}

/// The records of a sequence of users, as mathematical values.
pub open spec fn views_of(s: Seq<User>) -> Seq<UserView> {
    s.map_values(|u: User| u@)
}

/// `vs` and `ks` list exactly the contents of the mapping `m`: the keys `ks`
/// are distinct, `vs[i]` is the record `m` holds under `ks[i]`, and every
/// identifier present in `m` occurs among `ks`.
pub open spec fn lists_map(
    m: Map<Seq<char>, UserView>,
    vs: Seq<UserView>,
    ks: Seq<Seq<char>>,
) -> bool {
    &&& ks.no_duplicates()
    &&& ks.len() == vs.len()
    &&& forall|i: int| 0 <= i < ks.len() ==> m.contains_key(#[trigger] ks[i]) && m[ks[i]] == vs[i]
    &&& forall|k: Seq<char>| m.contains_key(k) ==> ks.contains(k)
}

/// Law: creating a record makes it retrievable — after `u` is stored under
/// `id`, the store holds `id` and the record under it is exactly `u`,
/// field for field.
pub proof fn law_create_then_get(m: Map<Seq<char>, UserView>, id: Seq<char>, u: UserView)
    ensures
        m.insert(id, u).contains_key(id),
        m.insert(id, u)[id] == u,
{
}

/// Law: after a delete of `id` the identifier is absent, so a following
/// lookup of `id` finds nothing and a second delete of `id` removes nothing.
pub proof fn law_delete_then_get(m: Map<Seq<char>, UserView>, id: Seq<char>)
    ensures
        !m.remove(id).contains_key(id),
        m.remove(id).remove(id) == m.remove(id),
{
    assert(m.remove(id).remove(id) =~= m.remove(id));
}

/// Law: an update of an absent `id` inserts nothing, so no listing taken
/// afterwards contains `id` among its identifiers.
pub proof fn law_update_missing(
    m: Map<Seq<char>, UserView>,
    id: Seq<char>,
    vs: Seq<UserView>,
    ks: Seq<Seq<char>>,
)
    requires
        !m.contains_key(id),
        lists_map(m, vs, ks),
    ensures
        !ks.contains(id),
{
    assert forall|i: int| 0 <= i < ks.len() implies ks[i] != id by {
        assert(m.contains_key(ks[i]));
    }
}

/// Law: the count the store reports and the length of a listing agree —
/// both are the number of identifiers present.
pub proof fn law_count_matches_list(
    m: Map<Seq<char>, UserView>,
    vs: Seq<UserView>,
    ks: Seq<Seq<char>>,
)
    requires
        m.dom().finite(),
        lists_map(m, vs, ks),
    ensures
        vs.len() == m.len(),
{
    broadcast use vstd::set::group_set_axioms;

    assert(m.dom() =~= ks.to_set()) by {
        assert forall|k: Seq<char>| ks.to_set().contains(k) implies m.dom().contains(k) by {
            let i = choose|i: int| 0 <= i < ks.len() && ks[i] == k;
            assert(m.contains_key(ks[i]));
        }
    }
    ks.unique_seq_to_set();
}

} // verus!
