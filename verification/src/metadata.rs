//! The metadata of a stream: typed values under text keys.

use vstd::prelude::*;
use std::sync::Arc;

verus! {

/// A value that the metadata of a stream can hold.
#[derive(Debug)]
pub enum MetaValue {
    Text(String),
    Port(u16),
    Number(u64),
}

/// A type of value that can be put into the metadata of a stream and asked
/// back from it.
pub trait MetaType: Sized {
    /// The stored form of a value of this type.
    spec fn stored(self) -> MetaValue;

    /// The value of this type that a stored value holds, if it holds one.
    spec fn held(value: MetaValue) -> Option<Self>;

    /// A stored value gives back what was stored, and only as the type that
    /// it was stored as.
    proof fn stored_is_held(self)
        ensures
            Self::held(self.stored()) == Some(self),
    ;

    fn store(self) -> (value: MetaValue)
        ensures
            value == self.stored(),
    ;

    fn borrow(value: &MetaValue) -> (r: Option<&Self>)
        ensures
            match Self::held(*value) {
                Some(x) => r == Some(&x),
                None => r is None,
            },
    ;

    fn unstore(value: MetaValue) -> (r: Option<Self>)
        ensures
            r == Self::held(value),
    ;
}

impl MetaType for String {
    open spec fn stored(self) -> MetaValue {
        MetaValue::Text(self)
    }

    open spec fn held(value: MetaValue) -> Option<String> {
        match value {
            MetaValue::Text(s) => Some(s),
            _ => None,
        }
    }

    proof fn stored_is_held(self) {
    }

    fn store(self) -> (value: MetaValue) {
        MetaValue::Text(self)
    }

    fn borrow(value: &MetaValue) -> (r: Option<&String>) {
        match value {
            MetaValue::Text(s) => Some(s),
            _ => None,
        }
    }

    fn unstore(value: MetaValue) -> (r: Option<String>) {
        match value {
            MetaValue::Text(s) => Some(s),
            _ => None,
        }
    }
}

impl MetaType for u16 {
    open spec fn stored(self) -> MetaValue {
        MetaValue::Port(self)
    }

    open spec fn held(value: MetaValue) -> Option<u16> {
        match value {
            MetaValue::Port(p) => Some(p),
            _ => None,
        }
    }

    proof fn stored_is_held(self) {
    }

    fn store(self) -> (value: MetaValue) {
        MetaValue::Port(self)
    }

    fn borrow(value: &MetaValue) -> (r: Option<&u16>) {
        match value {
            MetaValue::Port(p) => Some(p),
            _ => None,
        }
    }

    fn unstore(value: MetaValue) -> (r: Option<u16>) {
        match value {
            MetaValue::Port(p) => Some(p),
            _ => None,
        }
    }
}

impl MetaType for u64 {
    open spec fn stored(self) -> MetaValue {
        MetaValue::Number(self)
    }

    open spec fn held(value: MetaValue) -> Option<u64> {
        match value {
            MetaValue::Number(n) => Some(n),
            _ => None,
        }
    }

    proof fn stored_is_held(self) {
    }

    fn store(self) -> (value: MetaValue) {
        MetaValue::Number(self)
    }

    fn borrow(value: &MetaValue) -> (r: Option<&u64>) {
        match value {
            MetaValue::Number(n) => Some(n),
            _ => None,
        }
    }

    fn unstore(value: MetaValue) -> (r: Option<u64>) {
        match value {
            MetaValue::Number(n) => Some(n),
            _ => None,
        }
    }
}

/// `std::sync::Arc::clone`: a second handle to the same value.
#[verifier::external_body]
fn share(value: &Arc<MetaValue>) -> (r: Arc<MetaValue>)
    ensures
        *r == **value,
{
    Arc::clone(value)
}

/// `std::sync::Arc::try_unwrap`: the value itself, where this handle is the
/// only one to it. Whether it is depends on who else holds the value, so
/// nothing is said of when the value comes out, only that it is the value.
#[verifier::external_body]
fn unshare(value: Arc<MetaValue>) -> (r: Option<MetaValue>)
    ensures
        r matches Some(v) ==> v == *value,
{
    Arc::try_unwrap(value).ok()
}

/// No two entries share their key.
spec fn distinct(entries: Seq<(String, Arc<MetaValue>)>) -> bool {
    forall|i: int, j: int|
        0 <= i < j < entries.len() ==> (#[trigger] entries[i]).0@ != (#[trigger] entries[j]).0@
}

/// The metadata of a stream: values under text keys. A copy shares the
/// values with the original.
pub struct MetaData {
    entries: Vec<(String, Arc<MetaValue>)>,
}

/// What `key` gives in `map` when a value of type `T` is asked for: the value
/// under the key, if there is one and it is of that type.
pub open spec fn lookup<T: MetaType>(map: Map<Seq<char>, MetaValue>, key: Seq<char>) -> Option<T> {
    if map.contains_key(key) {
        T::held(map[key])
    } else {
        None
    }
}

/// After a value was taken out under a key, whatever came of it, the key
/// gives nothing, whatever type is asked for.
pub proof fn lemma_taken_is_gone<T: MetaType>(map: Map<Seq<char>, MetaValue>, key: Seq<char>)
    ensures
        lookup::<T>(map.remove(key), key) is None,
{
}

/// What is set under a key is what the key gives, asked for as the type that
/// it was set as.
pub proof fn lemma_set_is_got<T: MetaType>(
    map: Map<Seq<char>, MetaValue>,
    key: Seq<char>,
    value: T,
)
    ensures
        lookup::<T>(map.insert(key, value.stored()), key) == Some(value),
{
    value.stored_is_held();
}

impl MetaData {
    #[verifier::type_invariant]
    spec fn distinct_keys(self) -> bool {
        distinct(self.entries@)
    }

    spec fn place(self, key: Seq<char>) -> int {
        choose|i: int| 0 <= i < self.entries@.len() && self.entries@[i].0@ == key
    }

    /// The values of the metadata under their keys.
    pub closed spec fn view(&self) -> Map<Seq<char>, MetaValue> {
        Map::new(
            |key: Seq<char>|
                exists|i: int| 0 <= i < self.entries@.len() && self.entries@[i].0@ == key,
            |key: Seq<char>| *self.entries@[self.place(key)].1,
        )
    }

    /// Metadata that holds nothing.
    pub fn new() -> (m: MetaData)
        ensures
            m@ == Map::<Seq<char>, MetaValue>::empty(),
    {
        let m = MetaData { entries: Vec::new() };
        assert(m@ =~= Map::<Seq<char>, MetaValue>::empty());
        m
    }

    fn position(&self, key: &str) -> (r: Option<usize>)
        ensures
            match r {
                Some(i) => i < self.entries@.len() && self.entries@[i as int].0@ == key@
                    && self@.contains_key(key@) && self@[key@] == *self.entries@[i as int].1,
                None => !self@.contains_key(key@),
            },
    {
        proof {
            use_type_invariant(self);
        }
        let wanted = key.to_owned();
        let mut i: usize = 0;
        while i < self.entries.len()
            invariant
                i <= self.entries@.len(),
                wanted@ == key@,
                distinct(self.entries@),
                forall|j: int| 0 <= j < i ==> (#[trigger] self.entries@[j]).0@ != key@,
            decreases self.entries@.len() - i,
        {
            if self.entries[i].0 == wanted {
                proof {
                    let p = self.place(key@);
                    assert(self.entries@[i as int].0@ == key@);
                    assert(0 <= p < self.entries@.len() && self.entries@[p].0@ == key@);
                    if p < i {
                        assert(self.entries@[p].0@ != self.entries@[i as int].0@);
                    } else if i < p {
                        assert(self.entries@[i as int].0@ != self.entries@[p].0@);
                    }
                    assert(p == i);
                }
                return Some(i);
            }
            i += 1;
        }
        None
    }

    /// The value under `key`, if there is one and it is of the type asked for.
    pub fn get<T: MetaType>(&self, key: &str) -> (r: Option<&T>)
        ensures
            match lookup::<T>(self@, key@) {
                Some(x) => r == Some(&x),
                None => r is None,
            },
    {
        match self.position(key) {
            Some(i) => T::borrow(&*self.entries[i].1),
            None => None,
        }
    }

    /// Puts `value` under `key`, in the place of what was there.
    pub fn set<T: MetaType>(&mut self, key: String, value: T)
        ensures
            final(self)@ == old(self)@.insert(key@, value.stored()),
    {
        proof {
            use_type_invariant(&*self);
        }
        let ghost before = self.entries@;
        let ghost old_map = self@;
        let stored = Arc::new(value.store());
        match self.position(key.as_str()) {
            Some(i) => {
                let ghost name = self.entries@[i as int].0;
                let mut entries: Vec<(String, Arc<MetaValue>)> = Vec::new();
                core::mem::swap(&mut entries, &mut self.entries);
                entries.set(i, (key, stored));
                self.entries = entries;
                proof {
                    assert forall|k: Seq<char>| #[trigger]
                        self@.contains_key(k) <==> old_map.insert(
                            key@,
                            value.stored(),
                        ).contains_key(k) by {
                        if self@.contains_key(k) {
                            let j = choose|j: int|
                                0 <= j < self.entries@.len() && self.entries@[j].0@ == k;
                            assert(before[j].0@ == k);
                        }
                        if old_map.contains_key(k) {
                            let j = choose|j: int| 0 <= j < before.len() && before[j].0@ == k;
                            assert(self.entries@[j].0@ == k);
                        }
                        if k == key@ {
                            assert(self.entries@[i as int].0@ == k);
                        }
                    }
                    assert forall|k: Seq<char>| #[trigger] self@.contains_key(k) implies self@[k]
                        == old_map.insert(key@, value.stored())[k] by {
                        let j = self.place(k);
                        if j != i {
                            assert(before[j].0@ == k);
                            assert(before[j].0@ == before[old(self).place(k)].0@);
                        }
                    }
                    assert(self@ =~= old_map.insert(key@, value.stored()));
                }
            },
            None => {
                let mut entries: Vec<(String, Arc<MetaValue>)> = Vec::new();
                core::mem::swap(&mut entries, &mut self.entries);
                entries.push((key, stored));
                self.entries = entries;
                proof {
                    let n = before.len() as int;
                    assert forall|k: Seq<char>| #[trigger]
                        self@.contains_key(k) <==> old_map.insert(
                            key@,
                            value.stored(),
                        ).contains_key(k) by {
                        if self@.contains_key(k) {
                            let j = choose|j: int|
                                0 <= j < self.entries@.len() && self.entries@[j].0@ == k;
                            if j < n {
                                assert(before[j].0@ == k);
                            }
                        }
                        if old_map.contains_key(k) {
                            let j = choose|j: int| 0 <= j < before.len() && before[j].0@ == k;
                            assert(self.entries@[j].0@ == k);
                        }
                        if k == key@ {
                            assert(self.entries@[n].0@ == k);
                        }
                    }
                    assert forall|k: Seq<char>| #[trigger] self@.contains_key(k) implies self@[k]
                        == old_map.insert(key@, value.stored())[k] by {
                        let j = self.place(k);
                        if j < n {
                            assert(before[j].0@ == k);
                            assert(before[j].0@ == before[old(self).place(k)].0@);
                        }
                    }
                    assert(self@ =~= old_map.insert(key@, value.stored()));
                }
            },
        }
    }

    /// Takes out the value under `key`. The key is gone afterwards in any
    /// case. The value is handed out only if it is of the type asked for and
    /// no copy of the metadata shares it.
    pub fn take<T: MetaType>(&mut self, key: &str) -> (r: Option<Box<T>>)
        ensures
            final(self)@ == old(self)@.remove(key@),
            r matches Some(b) ==> lookup::<T>(old(self)@, key@) == Some(*b),
            lookup::<T>(old(self)@, key@) is None ==> r is None,
    {
        proof {
            use_type_invariant(&*self);
        }
        let ghost before = self.entries@;
        let ghost old_map = self@;
        match self.position(key) {
            None => {
                assert(self@ =~= old_map.remove(key@));
                None
            },
            Some(i) => {
                let mut entries: Vec<(String, Arc<MetaValue>)> = Vec::new();
                core::mem::swap(&mut entries, &mut self.entries);
                let entry = entries.remove(i);
                self.entries = entries;
                proof {
                    assert forall|k: Seq<char>| #[trigger]
                        self@.contains_key(k) <==> old_map.remove(key@).contains_key(k) by {
                        if self@.contains_key(k) {
                            let j = choose|j: int|
                                0 <= j < self.entries@.len() && self.entries@[j].0@ == k;
                            if j < i {
                                assert(before[j].0@ == k);
                            } else {
                                assert(before[j + 1].0@ == k);
                            }
                        }
                        if old_map.contains_key(k) && k != key@ {
                            let j = choose|j: int| 0 <= j < before.len() && before[j].0@ == k;
                            if j < i {
                                assert(self.entries@[j].0@ == k);
                            } else {
                                assert(self.entries@[j - 1].0@ == k);
                            }
                        }
                    }
                    assert forall|k: Seq<char>| #[trigger] self@.contains_key(k) implies self@[k]
                        == old_map.remove(key@)[k] by {
                        let j = self.place(k);
                        let o = old(self).place(k);
                        if j < i {
                            assert(before[j].0@ == k);
                            assert(before[o].0@ == k);
                        } else {
                            assert(before[j + 1].0@ == k);
                            assert(before[o].0@ == k);
                        }
                    }
                    assert(self@ =~= old_map.remove(key@));
                }
                match unshare(entry.1) {
                    Some(value) => match T::unstore(value) {
                        Some(x) => Some(Box::new(x)),
                        None => None,
                    },
                    None => None,
                }
            },
        }
    }
}

impl Clone for MetaData {
    /// A copy that shares its values with the original.
    fn clone(&self) -> (r: MetaData)
        ensures
            r@ == self@,
    {
        proof {
            use_type_invariant(self);
        }
        let mut entries: Vec<(String, Arc<MetaValue>)> = Vec::new();
        let mut i: usize = 0;
        while i < self.entries.len()
            invariant
                i <= self.entries@.len(),
                entries@.len() == i,
                forall|j: int|
                    0 <= j < i ==> (#[trigger] entries@[j]).0@ == self.entries@[j].0@
                        && *entries@[j].1 == *self.entries@[j].1,
            decreases self.entries@.len() - i,
        {
            entries.push((self.entries[i].0.clone(), share(&self.entries[i].1)));
            i += 1;
        }
        let r = MetaData { entries };
        proof {
            assert forall|k: Seq<char>| #[trigger] r@.contains_key(k) <==> self@.contains_key(
                k,
            ) by {
                if r@.contains_key(k) {
                    let j = choose|j: int| 0 <= j < r.entries@.len() && r.entries@[j].0@ == k;
                    assert(self.entries@[j].0@ == k);
                }
                if self@.contains_key(k) {
                    let j = choose|j: int|
                        0 <= j < self.entries@.len() && self.entries@[j].0@ == k;
                    assert(r.entries@[j].0@ == k);
                }
            }
            assert forall|k: Seq<char>| #[trigger] r@.contains_key(k) implies r@[k] == self@[k] by {
                let j = r.place(k);
                let o = self.place(k);
                assert(self.entries@[j].0@ == k);
                assert(self.entries@[o].0@ == k);
            }
            assert(r@ =~= self@);
        }
        r
    }
}

} // verus!
