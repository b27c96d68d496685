//! Maps and sets keyed by path, with constant-time lookup and a stable way to
//! walk their contents.
//!
//! Paths that are the same count as one key, however they are written: a key is
//! kept, and given back, in its canonical form.

use vstd::hash_map::StringHashMap;
use vstd::prelude::*;

use crate::path::{law_canonical, law_canonical_decides, PathStyle};
use crate::seqs::lemma_take_next;
use crate::text::texts;

verus! {

/// A map from paths to values.
///
/// The entries lie in `slots`; `index` gives each key's slot. A removal moves
/// the last slot into the hole.
pub struct PathMap<V> {
    style: PathStyle,
    slots: Vec<(String, V)>,
    index: StringHashMap<usize>,
}

spec fn is_indexed<V>(slots: Seq<(String, V)>, index: Map<Seq<char>, usize>) -> bool {
    &&& forall|i: int|
        0 <= i < slots.len() ==> {
            &&& index.contains_key(#[trigger] slots[i].0@)
            &&& index[slots[i].0@] == i
        }
    &&& forall|key: Seq<char>| #[trigger]
        index.contains_key(key) ==> {
            &&& index[key] < slots.len()
            &&& slots[index[key] as int].0@ == key
        }
}

spec fn are_canonical(style: PathStyle, index: Map<Seq<char>, usize>) -> bool {
    forall|key: Seq<char>| #[trigger] index.contains_key(key) ==> style.canonical(key) == key
}

impl<V> View for PathMap<V> {
    type V = Map<Seq<char>, V>;

    closed spec fn view(&self) -> Map<Seq<char>, V> {
        Map::new(
            |key: Seq<char>| self.index@.contains_key(key),
            |key: Seq<char>| self.slots@[self.index@[key] as int].1,
        )
    }
}

impl<V> PathMap<V> {
    /// Each slot's key is indexed at that slot, nothing else is indexed, and all
    /// keys are canonical.
    #[verifier::type_invariant]
    spec fn is_whole(self) -> bool {
        is_indexed(self.slots@, self.index@) && are_canonical(self.style, self.index@)
    }

    /// How the paths are written.
    pub closed spec fn style(self) -> PathStyle {
        self.style
    }

    /// The key under which `path` is found.
    pub open spec fn key(self, path: Seq<char>) -> Seq<char> {
        self.style().canonical(path)
    }

    /// The keys in the order in which `keys` lists them.
    pub closed spec fn key_order(self) -> Seq<Seq<char>> {
        self.slots@.map_values(|slot: (String, V)| slot.0@)
    }

    /// An empty map.
    pub fn new(style: PathStyle) -> (map: Self)
        ensures
            map@ == Map::<Seq<char>, V>::empty(),
            map.style() == style,
    {
        let map = PathMap { style, slots: Vec::new(), index: StringHashMap::new() };
        assert(map@ =~= Map::<Seq<char>, V>::empty());
        map
    }

    /// How the paths are written.
    pub fn path_style(&self) -> (style: PathStyle)
        ensures
            style == self.style(),
    {
        self.style
    }

    /// The number of entries.
    pub fn len(&self) -> (len: usize)
        ensures
            len == self@.len(),
    {
        assert(self@.dom() =~= self.index@.dom());
        self.index.len()
    }

    pub fn is_empty(&self) -> (empty: bool)
        ensures
            empty == (self@ == Map::<Seq<char>, V>::empty()),
    {
        proof {
            use_type_invariant(self);
        }
        if self.slots.len() == 0 {
            assert(self@ =~= Map::<Seq<char>, V>::empty());
            true
        } else {
            assert(self.index@.contains_key(self.slots@[0].0@));
            assert(self@.contains_key(self.slots@[0].0@));
            false
        }
    }

    pub fn contains_key(&self, path: &str) -> (found: bool)
        ensures
            found == self@.contains_key(self.key(path@)),
    {
        let key = self.style.canonical_path(path);
        self.index.contains_key(key.as_str())
    }

    pub fn get(&self, path: &str) -> (value: Option<&V>)
        ensures
            match value {
                Some(v) => self@.contains_key(self.key(path@)) && *v == self@[self.key(path@)],
                None => !self@.contains_key(self.key(path@)),
            },
    {
        proof {
            use_type_invariant(self);
        }
        let key = self.style.canonical_path(path);
        match self.index.get(key.as_str()) {
            Some(slot) => Some(&self.slots[*slot].1),
            None => None,
        }
    }

    /// Stores `value` under `path`, in place of any earlier value.
    pub fn insert(&mut self, path: String, value: V)
        ensures
            final(self)@ == old(self)@.insert(old(self).key(path@), value),
            final(self).style() == old(self).style(),
    {
        let key = self.style.canonical_path(path.as_str());
        let mut whole = PathMap::new(self.style);
        std::mem::swap(&mut whole, self);
        proof {
            use_type_invariant(&whole);
            law_canonical(whole.style, path@);
        }
        let PathMap { style, mut slots, mut index } = whole;
        let known: Option<usize> = match index.get(key.as_str()) {
            Some(slot) => Some(*slot),
            None => None,
        };
        match known {
            Some(slot) => {
                slots.set(slot, (key, value));
                assert(is_indexed(slots@, index@));
                assert(are_canonical(style, index@));
                *self = PathMap { style, slots, index };
                assert(self@ =~= old(self)@.insert(key@, value));
            },
            None => {
                let slot: usize = slots.len();
                index.insert(key.clone(), slot);
                slots.push((key, value));
                assert(is_indexed(slots@, index@));
                assert(are_canonical(style, index@));
                *self = PathMap { style, slots, index };
                assert(self@ =~= old(self)@.insert(key@, value));
            },
        }
    }

    /// Removes `path` and returns its value, if it was there.
    pub fn remove(&mut self, path: &str) -> (removed: Option<V>)
        ensures
            final(self)@ == old(self)@.remove(old(self).key(path@)),
            final(self).style() == old(self).style(),
            match removed {
                Some(v) => old(self)@.contains_key(old(self).key(path@)) && v == old(self)@[old(
                    self,
                ).key(path@)],
                None => !old(self)@.contains_key(old(self).key(path@)),
            },
    {
        let key = self.style.canonical_path(path);
        let mut whole = PathMap::new(self.style);
        std::mem::swap(&mut whole, self);
        proof {
            use_type_invariant(&whole);
        }
        let PathMap { style, mut slots, mut index } = whole;
        let known: Option<usize> = match index.get(key.as_str()) {
            Some(slot) => Some(*slot),
            None => None,
        };
        match known {
            Some(slot) => {
                let ghost before = slots@;
                let last: usize = slots.len() - 1;
                let moved = slots[last].0.clone();
                let removed = slots.swap_remove(slot);
                index.remove(key.as_str());
                if slot < last {
                    index.insert(moved, slot);
                }
                proof {
                    assert forall|i: int, j: int|
                        0 <= i < before.len() && 0 <= j < before.len() && #[trigger] before[i].0@
                            == #[trigger] before[j].0@ implies i == j by {}
                }
                assert(is_indexed(slots@, index@));
                assert(are_canonical(style, index@));
                *self = PathMap { style, slots, index };
                assert(self@ =~= old(self)@.remove(key@));
                Some(removed.1)
            },
            None => {
                assert(is_indexed(slots@, index@));
                assert(are_canonical(style, index@));
                *self = PathMap { style, slots, index };
                assert(self@ =~= old(self)@.remove(key@));
                None
            },
        }
    }

    /// All keys, each once.
    pub fn keys(&self) -> (keys: Vec<String>)
        ensures
            texts(keys@) == self.key_order(),
            self.key_order().no_duplicates(),
            forall|key: Seq<char>| #[trigger]
                self.key_order().contains(key) <==> self@.contains_key(key),
            forall|key: Seq<char>| #[trigger] self@.contains_key(key) ==> self.key(key) == key,
            keys@.len() == self@.len(),
    {
        proof {
            use_type_invariant(self);
        }
        let mut keys: Vec<String> = Vec::new();
        let mut i: usize = 0;
        while i < self.slots.len()
            invariant
                i <= self.slots@.len(),
                keys@.len() == i,
                forall|j: int| 0 <= j < i ==> #[trigger] keys@[j]@ == self.slots@[j].0@,
            decreases self.slots@.len() - i,
        {
            keys.push(self.slots[i].0.clone());
            i = i + 1;
        }
        let ghost order = self.key_order();
        assert(texts(keys@) =~= order);
        proof {
            assert forall|key: Seq<char>| #[trigger]
                order.contains(key) <==> self@.contains_key(key) by {
                if self@.contains_key(key) {
                    assert(order[self.index@[key] as int] == key);
                }
            }
            assert forall|i: int, j: int|
                0 <= i < order.len() && 0 <= j < order.len() && i != j implies order[i]
                != order[j] by {
                assert(self.index@[self.slots@[i].0@] == i);
                assert(self.index@[self.slots@[j].0@] == j);
            }
            assert(order.to_set() =~= self@.dom());
            order.unique_seq_to_set();
        }
        keys
    }
}

/// The canonical forms of paths.
pub open spec fn canonical_keys(style: PathStyle, paths: Seq<Seq<char>>) -> Seq<Seq<char>> {
    paths.map_values(|path: Seq<char>| style.canonical(path))
}

/// A set of paths.
pub struct PathSet {
    members: PathMap<()>,
}

impl View for PathSet {
    type V = Set<Seq<char>>;

    closed spec fn view(&self) -> Set<Seq<char>> {
        self.members@.dom()
    }
}

impl PathSet {
    /// How the paths are written.
    pub closed spec fn style(self) -> PathStyle {
        self.members.style()
    }

    /// The member that stands for `path`.
    pub open spec fn key(self, path: Seq<char>) -> Seq<char> {
        self.style().canonical(path)
    }

    /// The members in the order in which `list` gives them.
    pub closed spec fn order(self) -> Seq<Seq<char>> {
        self.members.key_order()
    }

    /// An empty set.
    pub fn new(style: PathStyle) -> (set: Self)
        ensures
            set@ == Set::<Seq<char>>::empty(),
            set.style() == style,
    {
        let set = PathSet { members: PathMap::new(style) };
        assert(set@ =~= Set::<Seq<char>>::empty());
        set
    }

    /// The set of the given paths.
    pub fn from_list(style: PathStyle, paths: Vec<String>) -> (set: Self)
        ensures
            set@ == canonical_keys(style, texts(paths@)).to_set(),
            set.style() == style,
    {
        let ghost keys = canonical_keys(style, texts(paths@));
        let mut set = PathSet::new(style);
        let mut i: usize = 0;
        assert(set@ =~= keys.take(0).to_set());
        while i < paths.len()
            invariant
                i <= paths@.len(),
                keys == canonical_keys(style, texts(paths@)),
                set@ == keys.take(i as int).to_set(),
                set.style() == style,
            decreases paths@.len() - i,
        {
            set.insert(paths[i].clone());
            proof {
                lemma_take_next(keys, i as int);
                assert(set@ =~= keys.take(i + 1).to_set());
            }
            i = i + 1;
        }
        assert(keys.take(i as int) =~= keys);
        set
    }

    /// How the paths are written.
    pub fn path_style(&self) -> (style: PathStyle)
        ensures
            style == self.style(),
    {
        self.members.path_style()
    }

    /// The number of members.
    pub fn len(&self) -> (len: usize)
        ensures
            len == self@.len(),
    {
        self.members.len()
    }

    pub fn is_empty(&self) -> (empty: bool)
        ensures
            empty == (self@ == Set::<Seq<char>>::empty()),
    {
        proof {
            if self@ == Set::<Seq<char>>::empty() {
                assert(self.members@ =~= Map::<Seq<char>, ()>::empty());
            }
        }
        self.members.is_empty()
    }

    pub fn contains(&self, path: &str) -> (found: bool)
        ensures
            found == self@.contains(self.key(path@)),
    {
        self.members.contains_key(path)
    }

    pub fn insert(&mut self, path: String)
        ensures
            final(self)@ == old(self)@.insert(old(self).key(path@)),
            final(self).style() == old(self).style(),
    {
        self.members.insert(path, ());
        assert(self@ =~= old(self)@.insert(old(self).key(path@)));
    }

    pub fn remove(&mut self, path: &str)
        ensures
            final(self)@ == old(self)@.remove(old(self).key(path@)),
            final(self).style() == old(self).style(),
    {
        let _gone = self.members.remove(path);
        assert(self@ =~= old(self)@.remove(old(self).key(path@)));
    }

    /// All members, each once.
    pub fn list(&self) -> (paths: Vec<String>)
        ensures
            texts(paths@) == self.order(),
            self.order().no_duplicates(),
            forall|path: Seq<char>| #[trigger] self.order().contains(path) <==> self@.contains(path),
            forall|path: Seq<char>| #[trigger] self@.contains(path) ==> self.key(path) == path,
    {
        self.members.keys()
    }
}

/// What was stored under a path is found under it, however the path is written then, and
/// the other paths are found as before.
pub proof fn law_stored_value_is_found<V>(
    map: &mut PathMap<V>,
    path: String,
    value: V,
    asked: &str,
    before: Option<&V>,
    found: Option<&V>,
)
    requires
        call_ensures(PathMap::<V>::insert, (map, path, value), ()),
        call_ensures(PathMap::<V>::get, (old(map), asked), before),
        call_ensures(PathMap::<V>::get, (final(map), asked), found),
    ensures
        old(map).style().parts_of(asked@) == old(map).style().parts_of(path@) ==> found is Some
            && *found->0 == value,
        old(map).style().parts_of(asked@) != old(map).style().parts_of(path@) ==> (found is Some
            <==> before is Some) && (found is Some ==> *found->0 == *before->0),
{
    law_canonical_decides(old(map).style(), asked@, path@);
}

/// What was removed is gone, however its path is written, and comes back from the
/// removal; the other paths are found as before.
pub proof fn law_removed_value_is_gone<V>(
    map: &mut PathMap<V>,
    path: &str,
    removed: Option<V>,
    asked: &str,
    before: Option<&V>,
    found: Option<&V>,
)
    requires
        call_ensures(PathMap::<V>::remove, (map, path), removed),
        call_ensures(PathMap::<V>::get, (old(map), asked), before),
        call_ensures(PathMap::<V>::get, (final(map), asked), found),
    ensures
        old(map).style().parts_of(asked@) == old(map).style().parts_of(path@) ==> found is None
            && (removed is Some <==> before is Some) && (removed is Some ==> removed->0
            == *before->0),
        old(map).style().parts_of(asked@) != old(map).style().parts_of(path@) ==> (found is Some
            <==> before is Some) && (found is Some ==> *found->0 == *before->0),
{
    law_canonical_decides(old(map).style(), asked@, path@);
}

/// A fresh map holds nothing.
pub proof fn law_fresh_map_is_empty<V>(
    style: PathStyle,
    map: PathMap<V>,
    asked: &str,
    found: Option<&V>,
    held: bool,
)
    requires
        call_ensures(PathMap::<V>::new, (style,), map),
        call_ensures(PathMap::<V>::get, (&map, asked), found),
        call_ensures(PathMap::<V>::contains_key, (&map, asked), held),
    ensures
        found is None,
        !held,
        map.style() == style,
{
}

/// The keys of a map are the paths under which something is found, each once.
pub proof fn law_keys_are_what_is_found<V>(
    map: PathMap<V>,
    keys: Vec<String>,
    asked: &str,
    found: Option<&V>,
    len: usize,
)
    requires
        call_ensures(PathMap::<V>::keys, (&map,), keys),
        call_ensures(PathMap::<V>::get, (&map, asked), found),
        call_ensures(PathMap::<V>::len, (&map,), len),
    ensures
        found is Some <==> exists|i: int|
            0 <= i < keys@.len() && (#[trigger] keys@[i])@ == map.style().canonical(asked@),
        len == keys@.len(),
        forall|i: int, j: int|
            0 <= i < j < keys@.len() ==> (#[trigger] keys@[i])@ != (#[trigger] keys@[j])@,
{
    let order = texts(keys@);
    let key = map.style().canonical(asked@);
    assert(order.len() == keys@.len());
    assert(forall|i: int| 0 <= i < keys@.len() ==> order[i] == (#[trigger] keys@[i])@);
    assert(map.key_order().contains(key) <==> map@.contains_key(key));
    if order.contains(key) {
        let i = choose|i: int| 0 <= i < order.len() && order[i] == key;
        assert(keys@[i]@ == key);
    }
    if exists|i: int| 0 <= i < keys@.len() && (#[trigger] keys@[i])@ == key {
        let i = choose|i: int| 0 <= i < keys@.len() && (#[trigger] keys@[i])@ == key;
        assert(order[i] == key);
    }
    assert forall|i: int, j: int| 0 <= i < j < keys@.len() implies (#[trigger] keys@[i])@ != (
    #[trigger] keys@[j])@ by {
        assert(order[i] != order[j]);
    }
}

/// A path is in a set once it was put there, however it is written, and the other paths
/// are as before.
pub proof fn law_member_is_found(
    set: &mut PathSet,
    path: String,
    asked: &str,
    before: bool,
    found: bool,
)
    requires
        call_ensures(PathSet::insert, (set, path), ()),
        call_ensures(PathSet::contains, (old(set), asked), before),
        call_ensures(PathSet::contains, (final(set), asked), found),
    ensures
        found <==> before || old(set).style().parts_of(asked@) == old(set).style().parts_of(path@),
{
    law_canonical_decides(old(set).style(), asked@, path@);
}

/// A path is not in a set once it was taken out, however it is written, and the other
/// paths are as before.
pub proof fn law_removed_member_is_gone(
    set: &mut PathSet,
    path: &str,
    asked: &str,
    before: bool,
    found: bool,
)
    requires
        call_ensures(PathSet::remove, (set, path), ()),
        call_ensures(PathSet::contains, (old(set), asked), before),
        call_ensures(PathSet::contains, (final(set), asked), found),
    ensures
        found <==> before && old(set).style().parts_of(asked@) != old(set).style().parts_of(path@),
{
    law_canonical_decides(old(set).style(), asked@, path@);
}

/// A set made of a list holds what the list holds.
pub proof fn law_set_holds_its_list(
    style: PathStyle,
    paths: Vec<String>,
    set: PathSet,
    asked: &str,
    found: bool,
)
    requires
        call_ensures(PathSet::from_list, (style, paths), set),
        call_ensures(PathSet::contains, (&set, asked), found),
    ensures
        found <==> exists|i: int|
            0 <= i < paths@.len() && style.parts_of((#[trigger] paths@[i])@) == style.parts_of(
                asked@,
            ),
{
    let keys = canonical_keys(style, texts(paths@));
    let key = style.canonical(asked@);
    assert(keys.len() == paths@.len());
    assert forall|i: int| 0 <= i < paths@.len() implies keys[i] == style.canonical(
        (#[trigger] paths@[i])@,
    ) && (keys[i] == key <==> style.parts_of(paths@[i]@) == style.parts_of(asked@)) by {
        law_canonical_decides(style, paths@[i]@, asked@);
    }
    if keys.contains(key) {
        let i = choose|i: int| 0 <= i < keys.len() && keys[i] == key;
        assert(style.parts_of(paths@[i]@) == style.parts_of(asked@));
    }
    if exists|i: int|
        0 <= i < paths@.len() && style.parts_of((#[trigger] paths@[i])@) == style.parts_of(
            asked@,
        ) {
        let i = choose|i: int|
            0 <= i < paths@.len() && style.parts_of((#[trigger] paths@[i])@) == style.parts_of(
                asked@,
            );
        assert(keys[i] == key);
    }
}

} // verus!
