use crate::outcome_view;
use crate::impls::{
    incorrect_kind, incorrect_kind_error, kinds1, lemma_seq_pass_stays_stopped, reversed, seq_pass,
};
use crate::value::{PathStep, Value, ValueKind, ValuePointerRef};
use crate::keys::MapKey;
use crate::{DeserializeError, Deserr, ErrorKind, ErrorKindView, MergeWithError};
use std::collections::{BTreeMap, BTreeSet, HashMap, HashSet};
use std::ops::ControlFlow;
use vstd::prelude::*;
use vstd::string::{StrSliceExecFns, StringExecFns};

verus! {

pub open spec fn is_digit(c: char) -> bool {
    '0' <= c && c <= '9'
}

pub open spec fn digit_value(c: char) -> nat {
    (c as u32 - '0' as u32) as nat
}

/// The number that a string of decimal digits writes.
pub open spec fn digits_value(s: Seq<char>) -> nat
    decreases s.len(),
{
    if s.len() == 0 {
        0
    } else {
        digits_value(s.drop_last()) * 10 + digit_value(s.last())
    }
}

/// The digits of a key, after an optional leading `+`.
pub open spec fn unsigned_digits(s: Seq<char>) -> Seq<char> {
    if s.len() > 0 && s[0] == '+' {
        s.drop_first()
    } else {
        s
    }
}

/// The `u64` that a key writes in decimal, as `u64::from_str` reads it: an
/// optional `+`, then one or more digits, for a number that fits.
pub open spec fn parsed_u64(s: Seq<char>) -> Option<u64> {
    let d = unsigned_digits(s);
    if d.len() > 0 && (forall|i: int| 0 <= i < d.len() ==> is_digit(#[trigger] d[i]))
        && digits_value(d) <= u64::MAX {
        Some(digits_value(d) as u64)
    } else {
        None
    }
}

proof fn lemma_digits_value_grows(d: Seq<char>, k: nat)
    requires
        k <= d.len(),
    ensures
        digits_value(d.subrange(0, k as int)) <= digits_value(d),
    decreases d.len() - k,
{
    if k < d.len() {
        lemma_digits_value_grows(d, k + 1);
        assert(d.subrange(0, (k + 1) as int).drop_last() =~= d.subrange(0, k as int));
    } else {
        assert(d.subrange(0, k as int) =~= d);
    }
}

/// Read a map key as a `u64` written in decimal.
pub fn parse_u64_key(s: &str) -> (r: Option<u64>)
    ensures
        r == parsed_u64(s@),
{
    let n = s.unicode_len();
    let start: usize = if n > 0 && s.get_char(0) == '+' {
        1
    } else {
        0
    };
    let ghost d = unsigned_digits(s@);
    assert(d =~= s@.subrange(start as int, n as int));
    if start >= n {
        return None;
    }
    let mut value: u64 = 0;
    let mut i: usize = start;
    while i < n
        invariant
            start <= i <= n == s@.len(),
            d == s@.subrange(start as int, n as int),
            d == unsigned_digits(s@),
            forall|j: int| 0 <= j < i - start ==> is_digit(#[trigger] d[j]),
            value as nat == digits_value(d.subrange(0, i - start)),
        decreases n - i,
    {
        let c = s.get_char(i);
        assert(c == d[i - start]);
        if !('0' <= c && c <= '9') {
            assert(!is_digit(d[i - start]));
            return None;
        }
        let digit = (c as u32 - '0' as u32) as u64;
        let ghost p = d.subrange(0, i - start + 1);
        assert(p.drop_last() =~= d.subrange(0, i - start));
        assert(p.last() == c);
        assert(digits_value(p) == value * 10 + digit);
        let next = match value.checked_mul(10) {
            Some(tens) => tens.checked_add(digit),
            None => None,
        };
        match next {
            Some(v) => {
                value = v;
            },
            None => {
                proof {
                    if forall|j: int| 0 <= j < d.len() ==> is_digit(#[trigger] d[j]) {
                        lemma_digits_value_grows(d, (i - start + 1) as nat);
                    }
                }
                return None;
            },
        }
        i = i + 1;
    }
    assert(d.subrange(0, n - start) =~= d);
    Some(value)
}


pub open spec fn bad_key_msg(key: Seq<char>, kind: Seq<char>) -> Seq<char> {
    "the key \""@ + key + "\" could not be deserialized into the key type `"@ + kind + "`"@
}

fn bad_key_message<K: MapKey>(key: &String) -> (r: String)
    ensures
        r@ == bad_key_msg(key@, K::spec_key_kind_name()),
{
    let mut m = String::from_str("the key \"");
    m.append(key.as_str());
    m.append("\" could not be deserialized into the key type `");
    m.append(K::key_kind_name());
    m.append("`");
    m
}

/// The state of a pass over the entries of a map read with keys of type
/// `K`: stopped with a final error, or going on with the entries read so far
/// (a later entry with the same key replacing an earlier one) and the error
/// gathered so far.
pub open spec fn map_pass<K: MapKey, T: Deserr<E>, E: DeserializeError>(
    entries: Seq<(String, Value)>,
    location: Seq<PathStep>,
    n: nat,
) -> ControlFlow<E::V, (Map<K::V, T::V>, Option<E::V>)>
    decreases n,
{
    if n == 0 {
        ControlFlow::Continue((Map::empty(), None))
    } else {
        match map_pass::<K, T, E>(entries, location, (n - 1) as nat) {
            ControlFlow::Break(fin) => ControlFlow::Break(fin),
            ControlFlow::Continue((m, err)) => {
                let (k, v) = entries[n - 1];
                match K::spec_parse(k@) {
                    Some(key) => {
                        let at = location.push(PathStep::Key(k@));
                        match T::spec_deserialize(v, at) {
                            Ok(x) => ControlFlow::Continue((m.insert(key, x), err)),
                            Err(e) => match E::spec_merge(err, e, at) {
                                ControlFlow::Continue(acc) => ControlFlow::Continue((m, Some(acc))),
                                ControlFlow::Break(fin) => ControlFlow::Break(fin),
                            },
                        }
                    },
                    None => match E::spec_error(
                        err,
                        ErrorKindView::Unexpected {
                            msg: bad_key_msg(k@, K::spec_key_kind_name()),
                        },
                        location,
                    ) {
                        ControlFlow::Continue(acc) => ControlFlow::Continue((m, Some(acc))),
                        ControlFlow::Break(fin) => ControlFlow::Break(fin),
                    },
                }
            },
        }
    }
}

/// The outcome of reading `value` as a map with keys of type `K` and values
/// of type `T`. A key that does not read as a `K`, or a value that fails, is
/// merged into the error and the other entries are still read.
pub open spec fn spec_map<K: MapKey, T: Deserr<E>, E: DeserializeError>(
    value: Value,
    location: Seq<PathStep>,
) -> Result<Map<K::V, T::V>, E::V> {
    match value {
        Value::Object(entries) => match map_pass::<K, T, E>(entries@, location, entries@.len()) {
            ControlFlow::Break(fin) => Err(fin),
            ControlFlow::Continue((m, None)) => Ok(m),
            ControlFlow::Continue((_, Some(e))) => Err(e),
        },
        _ => Err(incorrect_kind::<E>(value, seq![ValueKind::Object], location)),
    }
}

proof fn lemma_map_pass_stays_stopped<K: MapKey, T: Deserr<E>, E: DeserializeError>(
    entries: Seq<(String, Value)>,
    location: Seq<PathStep>,
    k: nat,
    n: nat,
)
    requires
        k <= n,
        map_pass::<K, T, E>(entries, location, k) is Break,
    ensures
        map_pass::<K, T, E>(entries, location, n) == map_pass::<K, T, E>(entries, location, k),
    decreases n - k,
{
    if k < n {
        lemma_map_pass_stays_stopped::<K, T, E>(entries, location, k, (n - 1) as nat);
    }
}

/// The map that a list of key-value pairs stands for: a later pair with the
/// same key replaces an earlier one.
pub open spec fn pairs_map<K: DeepView, T: DeepView>(s: Seq<(K, T)>) -> Map<K::V, T::V>
    decreases s.len(),
{
    if s.len() == 0 {
        Map::empty()
    } else {
        pairs_map(s.drop_last()).insert(s.last().0.deep_view(), s.last().1.deep_view())
    }
}

/// A map whose keys are of any [`MapKey`] type, `String` and `char`
/// included: the pairs in the order they were inserted, a later pair with
/// the same key replacing an earlier one.
#[derive(Debug)]
pub struct KeyedMap<K, T> {
    pairs: Vec<(K, T)>,
}

impl<K: DeepView, T: DeepView> DeepView for KeyedMap<K, T> {
    type V = Map<K::V, T::V>;

    closed spec fn deep_view(&self) -> Map<K::V, T::V> {
        pairs_map(self.pairs@)
    }
}

impl<K: MapKey, T: DeepView> KeyedMap<K, T> {
    /// An empty map.
    pub fn new() -> (r: KeyedMap<K, T>)
        ensures
            r.deep_view() == Map::<K::V, T::V>::empty(),
    {
        KeyedMap { pairs: Vec::new() }
    }

    /// Map `key` to `value`, replacing what it mapped to before.
    pub fn insert(&mut self, key: K, value: T)
        ensures
            final(self).deep_view() == old(self).deep_view().insert(
                key.deep_view(),
                value.deep_view(),
            ),
    {
        let ghost before = self.pairs@;
        self.pairs.push((key, value));
        proof {
            assert(self.pairs@.drop_last() =~= before);
        }
    }

    fn get_below(&self, key: &K, n: usize) -> (r: Option<&T>)
        requires
            n <= self.pairs.len(),
        ensures
            match r {
                Some(v) => pairs_map(self.pairs@.subrange(0, n as int)).contains_key(key.deep_view())
                    && pairs_map(self.pairs@.subrange(0, n as int))[key.deep_view()]
                    == v.deep_view(),
                None => !pairs_map(self.pairs@.subrange(0, n as int)).contains_key(
                    key.deep_view(),
                ),
            },
        decreases n,
    {
        if n == 0 {
            None
        } else {
            proof {
                assert(self.pairs@.subrange(0, n as int).drop_last() =~= self.pairs@.subrange(
                    0,
                    n - 1,
                ));
            }
            if self.pairs[n - 1].0.same_key(key) {
                Some(&self.pairs[n - 1].1)
            } else {
                self.get_below(key, n - 1)
            }
        }
    }

    /// What `key` maps to, if anything.
    pub fn get(&self, key: &K) -> (r: Option<&T>)
        ensures
            match r {
                Some(v) => self.deep_view().contains_key(key.deep_view())
                    && self.deep_view()[key.deep_view()] == v.deep_view(),
                None => !self.deep_view().contains_key(key.deep_view()),
            },
    {
        proof {
            assert(self.pairs@.subrange(0, self.pairs.len() as int) =~= self.pairs@);
        }
        self.get_below(key, self.pairs.len())
    }

    /// The pairs in the order they were inserted; a later pair with the same
    /// key replaces an earlier one.
    pub fn into_pairs(self) -> (r: Vec<(K, T)>)
        ensures
            pairs_map(r@) == self.deep_view(),
    {
        self.pairs
    }
}

/// A map read with keys of any [`MapKey`] type, `char` and `String` keys
/// included.
impl<K: MapKey, T: Deserr<E>, E: DeserializeError> Deserr<E> for KeyedMap<K, T> {
    open spec fn spec_deserialize(value: Value, location: Seq<PathStep>) -> Result<
        Map<K::V, T::V>,
        E::V,
    > {
        spec_map::<K, T, E>(value, location)
    }

    fn deserialize_from_value(value: Value, location: ValuePointerRef) -> (r: Result<
        KeyedMap<K, T>,
        E,
    >) {
        let entries = match value {
            Value::Object(entries) => entries,
            _ => {
                return Err(incorrect_kind_error(value, kinds1(ValueKind::Object), location));
            },
        };
        let ghost orig = entries@;
        let n = entries.len();
        let mut rest = reversed(entries);
        let mut out: KeyedMap<K, T> = KeyedMap::new();
        let mut error: Option<E> = None;
        let mut index: usize = 0;
        while index < n
            invariant
                index <= n == orig.len(),
                value matches Value::Object(es) && es@ == orig,
                rest.len() == n - index,
                forall|j: int| 0 <= j < rest.len() ==> rest@[j] == orig[n - 1 - j],
                map_pass::<K, T, E>(orig, location.path(), index as nat) == ControlFlow::<
                    E::V,
                    (Map<K::V, T::V>, Option<E::V>),
                >::Continue((out.deep_view(), error.deep_view())),
            decreases n - index,
        {
            let (k, item) = rest.pop().unwrap();
            assert((k, item) == orig[index as int]);
            match K::parse_key(&k) {
                Some(key) => {
                    let at = location.push_key(k.as_str());
                    match T::deserialize_from_value(item, at) {
                        Ok(x) => {
                            out.insert(key, x);
                        },
                        Err(e) => {
                            match E::merge(error, e, at) {
                                ControlFlow::Continue(acc) => {
                                    error = Some(acc);
                                },
                                ControlFlow::Break(fin) => {
                                    proof {
                                        lemma_map_pass_stays_stopped::<K, T, E>(
                                            orig,
                                            location.path(),
                                            (index + 1) as nat,
                                            n as nat,
                                        );
                                    }
                                    return Err(fin);
                                },
                            }
                        },
                    }
                },
                None => {
                    let msg = bad_key_message::<K>(&k);
                    match E::error(error, ErrorKind::Unexpected { msg }, location) {
                        ControlFlow::Continue(acc) => {
                            error = Some(acc);
                        },
                        ControlFlow::Break(fin) => {
                            proof {
                                lemma_map_pass_stays_stopped::<K, T, E>(
                                    orig,
                                    location.path(),
                                    (index + 1) as nat,
                                    n as nat,
                                );
                            }
                            return Err(fin);
                        },
                    }
                },
            }
            index = index + 1;
        }
        match error {
            Some(e) => Err(e),
            None => Ok(out),
        }
    }
}

/// Read a map into a `BTreeMap` with keys of a type whose order obeys the
/// laws of an order and whose view tells keys apart.
pub fn deserialize_btree_map<K: MapKey + Ord, T: Deserr<E>, E: DeserializeError>(
    value: Value,
    location: ValuePointerRef,
) -> (r: Result<BTreeMap<K, T>, E>)
    requires
        vstd::laws_cmp::obeys_cmp::<K>(),
        vstd::relations::injective(|k: K| k.deep_view()),
    ensures
        outcome_view(r) == spec_map::<K, T, E>(value, location.path()),
{
    broadcast use vstd::std_specs::btree::group_btree_axioms;

    let entries = match value {
        Value::Object(entries) => entries,
        _ => {
            return Err(incorrect_kind_error(value, kinds1(ValueKind::Object), location));
        },
    };
    let ghost orig = entries@;
    let n = entries.len();
    let mut rest = reversed(entries);
    let mut out: BTreeMap<K, T> = BTreeMap::new();
    let mut error: Option<E> = None;
    let mut index: usize = 0;
    proof {
        vstd::std_specs::btree::lemma_btree_map_deepview_properties(out);
        assert(out.deep_view() =~= Map::<K::V, T::V>::empty());
    }
    while index < n
        invariant
            index <= n == orig.len(),
            value matches Value::Object(es) && es@ == orig,
            vstd::laws_cmp::obeys_cmp::<K>(),
            vstd::relations::injective(|k: K| k.deep_view()),
            rest.len() == n - index,
            forall|j: int| 0 <= j < rest.len() ==> rest@[j] == orig[n - 1 - j],
            map_pass::<K, T, E>(orig, location.path(), index as nat) == ControlFlow::<
                E::V,
                (Map<K::V, T::V>, Option<E::V>),
            >::Continue((out.deep_view(), error.deep_view())),
        decreases n - index,
    {
        let (k, item) = rest.pop().unwrap();
        assert((k, item) == orig[index as int]);
        match K::parse_key(&k) {
            Some(key) => {
                let at = location.push_key(k.as_str());
                match T::deserialize_from_value(item, at) {
                    Ok(x) => {
                        let ghost before = out;
                        let ghost kv = key.deep_view();
                        let ghost key0 = key;
                        out.insert(key, x);
                        proof {
                            vstd::std_specs::btree::lemma_btree_map_deepview_properties(before);
                            vstd::std_specs::btree::lemma_btree_map_deepview_properties(out);
                            assert(out@ == before@.insert(key0, x));
                            let want = before.deep_view().insert(kv, x.deep_view());
                            let f = |k: K| k.deep_view();
                            assert forall|dk: K::V| #[trigger]
                                out.deep_view().contains_key(dk) == want.contains_key(dk) by {
                                if out.deep_view().contains_key(dk) {
                                    let k0 = choose|k0: K|
                                        k0.deep_view() == dk && #[trigger] out@.contains_key(k0);
                                    if k0 != key0 {
                                        assert(before@.contains_key(k0));
                                    }
                                }
                                if before.deep_view().contains_key(dk) {
                                    let k0 = choose|k0: K|
                                        k0.deep_view() == dk && #[trigger] before@.contains_key(k0);
                                    assert(out@.contains_key(k0));
                                }
                                if dk == kv {
                                    assert(out@.contains_key(key0));
                                }
                            }
                            assert forall|dk: K::V| #[trigger]
                                out.deep_view().contains_key(dk) implies out.deep_view()[dk]
                                == want[dk] by {
                                let k0 = choose|k0: K|
                                    k0.deep_view() == dk && #[trigger] out@.contains_key(k0);
                                if k0 == key0 {
                                    assert(dk == kv);
                                } else {
                                    assert(f(k0) != f(key0));
                                    assert(before@.contains_key(k0));
                                }
                            }
                            assert(out.deep_view() =~= want);
                        }
                    },
                    Err(e) => {
                        match E::merge(error, e, at) {
                            ControlFlow::Continue(acc) => {
                                error = Some(acc);
                            },
                            ControlFlow::Break(fin) => {
                                proof {
                                    lemma_map_pass_stays_stopped::<K, T, E>(
                                        orig,
                                        location.path(),
                                        (index + 1) as nat,
                                        n as nat,
                                    );
                                }
                                return Err(fin);
                            },
                        }
                    },
                }
            },
            None => {
                let msg = bad_key_message::<K>(&k);
                match E::error(error, ErrorKind::Unexpected { msg }, location) {
                    ControlFlow::Continue(acc) => {
                        error = Some(acc);
                    },
                    ControlFlow::Break(fin) => {
                        proof {
                            lemma_map_pass_stays_stopped::<K, T, E>(
                                orig,
                                location.path(),
                                (index + 1) as nat,
                                n as nat,
                            );
                        }
                        return Err(fin);
                    },
                }
            },
        }
        index = index + 1;
    }
    match error {
        Some(e) => Err(e),
        None => Ok(out),
    }
}

/// A map with `u8` keys written in decimal.
impl<T: Deserr<E>, E: DeserializeError> Deserr<E> for BTreeMap<u8, T> {
    open spec fn spec_deserialize(value: Value, location: Seq<PathStep>) -> Result<
        Map<u8, T::V>,
        E::V,
    > {
        spec_map::<u8, T, E>(value, location)
    }

    fn deserialize_from_value(value: Value, location: ValuePointerRef) -> (r: Result<
        BTreeMap<u8, T>,
        E,
    >) {
        proof {
            broadcast use vstd::laws_cmp::group_laws_cmp;

            let f = |k: u8| k.deep_view();
            assert forall|a: u8, b: u8| #[trigger] f(a) == #[trigger] f(b) implies a == b by {}
            assert(vstd::relations::injective(f));
            assert(vstd::laws_cmp::obeys_cmp::<u8>());
        }
        deserialize_btree_map::<u8, T, E>(value, location)
    }
}

/// A map with `u16` keys written in decimal.
impl<T: Deserr<E>, E: DeserializeError> Deserr<E> for BTreeMap<u16, T> {
    open spec fn spec_deserialize(value: Value, location: Seq<PathStep>) -> Result<
        Map<u16, T::V>,
        E::V,
    > {
        spec_map::<u16, T, E>(value, location)
    }

    fn deserialize_from_value(value: Value, location: ValuePointerRef) -> (r: Result<
        BTreeMap<u16, T>,
        E,
    >) {
        proof {
            broadcast use vstd::laws_cmp::group_laws_cmp;

            let f = |k: u16| k.deep_view();
            assert forall|a: u16, b: u16| #[trigger] f(a) == #[trigger] f(b) implies a == b by {}
            assert(vstd::relations::injective(f));
            assert(vstd::laws_cmp::obeys_cmp::<u16>());
        }
        deserialize_btree_map::<u16, T, E>(value, location)
    }
}

/// A map with `u32` keys written in decimal.
impl<T: Deserr<E>, E: DeserializeError> Deserr<E> for BTreeMap<u32, T> {
    open spec fn spec_deserialize(value: Value, location: Seq<PathStep>) -> Result<
        Map<u32, T::V>,
        E::V,
    > {
        spec_map::<u32, T, E>(value, location)
    }

    fn deserialize_from_value(value: Value, location: ValuePointerRef) -> (r: Result<
        BTreeMap<u32, T>,
        E,
    >) {
        proof {
            broadcast use vstd::laws_cmp::group_laws_cmp;

            let f = |k: u32| k.deep_view();
            assert forall|a: u32, b: u32| #[trigger] f(a) == #[trigger] f(b) implies a == b by {}
            assert(vstd::relations::injective(f));
            assert(vstd::laws_cmp::obeys_cmp::<u32>());
        }
        deserialize_btree_map::<u32, T, E>(value, location)
    }
}

/// A map with `u64` keys written in decimal.
impl<T: Deserr<E>, E: DeserializeError> Deserr<E> for BTreeMap<u64, T> {
    open spec fn spec_deserialize(value: Value, location: Seq<PathStep>) -> Result<
        Map<u64, T::V>,
        E::V,
    > {
        spec_map::<u64, T, E>(value, location)
    }

    fn deserialize_from_value(value: Value, location: ValuePointerRef) -> (r: Result<
        BTreeMap<u64, T>,
        E,
    >) {
        proof {
            broadcast use vstd::laws_cmp::group_laws_cmp;

            let f = |k: u64| k.deep_view();
            assert forall|a: u64, b: u64| #[trigger] f(a) == #[trigger] f(b) implies a == b by {}
            assert(vstd::relations::injective(f));
            assert(vstd::laws_cmp::obeys_cmp::<u64>());
        }
        deserialize_btree_map::<u64, T, E>(value, location)
    }
}

/// A map with `usize` keys written in decimal.
impl<T: Deserr<E>, E: DeserializeError> Deserr<E> for BTreeMap<usize, T> {
    open spec fn spec_deserialize(value: Value, location: Seq<PathStep>) -> Result<
        Map<usize, T::V>,
        E::V,
    > {
        spec_map::<usize, T, E>(value, location)
    }

    fn deserialize_from_value(value: Value, location: ValuePointerRef) -> (r: Result<
        BTreeMap<usize, T>,
        E,
    >) {
        proof {
            broadcast use vstd::laws_cmp::group_laws_cmp;

            let f = |k: usize| k.deep_view();
            assert forall|a: usize, b: usize| #[trigger] f(a) == #[trigger] f(b) implies a == b by {}
            assert(vstd::relations::injective(f));
            assert(vstd::laws_cmp::obeys_cmp::<usize>());
        }
        deserialize_btree_map::<usize, T, E>(value, location)
    }
}

/// A map with `i8` keys written in decimal.
impl<T: Deserr<E>, E: DeserializeError> Deserr<E> for BTreeMap<i8, T> {
    open spec fn spec_deserialize(value: Value, location: Seq<PathStep>) -> Result<
        Map<i8, T::V>,
        E::V,
    > {
        spec_map::<i8, T, E>(value, location)
    }

    fn deserialize_from_value(value: Value, location: ValuePointerRef) -> (r: Result<
        BTreeMap<i8, T>,
        E,
    >) {
        proof {
            broadcast use vstd::laws_cmp::group_laws_cmp;

            let f = |k: i8| k.deep_view();
            assert forall|a: i8, b: i8| #[trigger] f(a) == #[trigger] f(b) implies a == b by {}
            assert(vstd::relations::injective(f));
            assert(vstd::laws_cmp::obeys_cmp::<i8>());
        }
        deserialize_btree_map::<i8, T, E>(value, location)
    }
}

/// A map with `i16` keys written in decimal.
impl<T: Deserr<E>, E: DeserializeError> Deserr<E> for BTreeMap<i16, T> {
    open spec fn spec_deserialize(value: Value, location: Seq<PathStep>) -> Result<
        Map<i16, T::V>,
        E::V,
    > {
        spec_map::<i16, T, E>(value, location)
    }

    fn deserialize_from_value(value: Value, location: ValuePointerRef) -> (r: Result<
        BTreeMap<i16, T>,
        E,
    >) {
        proof {
            broadcast use vstd::laws_cmp::group_laws_cmp;

            let f = |k: i16| k.deep_view();
            assert forall|a: i16, b: i16| #[trigger] f(a) == #[trigger] f(b) implies a == b by {}
            assert(vstd::relations::injective(f));
            assert(vstd::laws_cmp::obeys_cmp::<i16>());
        }
        deserialize_btree_map::<i16, T, E>(value, location)
    }
}

/// A map with `i32` keys written in decimal.
impl<T: Deserr<E>, E: DeserializeError> Deserr<E> for BTreeMap<i32, T> {
    open spec fn spec_deserialize(value: Value, location: Seq<PathStep>) -> Result<
        Map<i32, T::V>,
        E::V,
    > {
        spec_map::<i32, T, E>(value, location)
    }

    fn deserialize_from_value(value: Value, location: ValuePointerRef) -> (r: Result<
        BTreeMap<i32, T>,
        E,
    >) {
        proof {
            broadcast use vstd::laws_cmp::group_laws_cmp;

            let f = |k: i32| k.deep_view();
            assert forall|a: i32, b: i32| #[trigger] f(a) == #[trigger] f(b) implies a == b by {}
            assert(vstd::relations::injective(f));
            assert(vstd::laws_cmp::obeys_cmp::<i32>());
        }
        deserialize_btree_map::<i32, T, E>(value, location)
    }
}

/// A map with `i64` keys written in decimal.
impl<T: Deserr<E>, E: DeserializeError> Deserr<E> for BTreeMap<i64, T> {
    open spec fn spec_deserialize(value: Value, location: Seq<PathStep>) -> Result<
        Map<i64, T::V>,
        E::V,
    > {
        spec_map::<i64, T, E>(value, location)
    }

    fn deserialize_from_value(value: Value, location: ValuePointerRef) -> (r: Result<
        BTreeMap<i64, T>,
        E,
    >) {
        proof {
            broadcast use vstd::laws_cmp::group_laws_cmp;

            let f = |k: i64| k.deep_view();
            assert forall|a: i64, b: i64| #[trigger] f(a) == #[trigger] f(b) implies a == b by {}
            assert(vstd::relations::injective(f));
            assert(vstd::laws_cmp::obeys_cmp::<i64>());
        }
        deserialize_btree_map::<i64, T, E>(value, location)
    }
}

/// A map with `isize` keys written in decimal.
impl<T: Deserr<E>, E: DeserializeError> Deserr<E> for BTreeMap<isize, T> {
    open spec fn spec_deserialize(value: Value, location: Seq<PathStep>) -> Result<
        Map<isize, T::V>,
        E::V,
    > {
        spec_map::<isize, T, E>(value, location)
    }

    fn deserialize_from_value(value: Value, location: ValuePointerRef) -> (r: Result<
        BTreeMap<isize, T>,
        E,
    >) {
        proof {
            broadcast use vstd::laws_cmp::group_laws_cmp;

            let f = |k: isize| k.deep_view();
            assert forall|a: isize, b: isize| #[trigger] f(a) == #[trigger] f(b) implies a == b by {}
            assert(vstd::relations::injective(f));
            assert(vstd::laws_cmp::obeys_cmp::<isize>());
        }
        deserialize_btree_map::<isize, T, E>(value, location)
    }
}

/// Read a map into a `HashMap` with keys of a type that hashes as its
/// equality requires and whose view tells keys apart.
pub fn deserialize_hash_map<K: MapKey + std::hash::Hash + Eq, T: Deserr<E>, E: DeserializeError>(
    value: Value,
    location: ValuePointerRef,
) -> (r: Result<HashMap<K, T>, E>)
    requires
        vstd::std_specs::hash::obeys_key_model::<K>(),
        vstd::relations::injective(|k: K| k.deep_view()),
    ensures
        outcome_view(r) == spec_map::<K, T, E>(value, location.path()),
{
    broadcast use vstd::std_specs::hash::group_hash_axioms;

    let entries = match value {
        Value::Object(entries) => entries,
        _ => {
            return Err(incorrect_kind_error(value, kinds1(ValueKind::Object), location));
        },
    };
    let ghost orig = entries@;
    let n = entries.len();
    let mut rest = reversed(entries);
    let mut out: HashMap<K, T> = HashMap::new();
    let mut error: Option<E> = None;
    let mut index: usize = 0;
    proof {
        vstd::std_specs::hash::lemma_hashmap_deepview_properties(out);
        assert(out.deep_view() =~= Map::<K::V, T::V>::empty());
    }
    while index < n
        invariant
            index <= n == orig.len(),
            value matches Value::Object(es) && es@ == orig,
            vstd::std_specs::hash::obeys_key_model::<K>(),
            vstd::relations::injective(|k: K| k.deep_view()),
            rest.len() == n - index,
            forall|j: int| 0 <= j < rest.len() ==> rest@[j] == orig[n - 1 - j],
            map_pass::<K, T, E>(orig, location.path(), index as nat) == ControlFlow::<
                E::V,
                (Map<K::V, T::V>, Option<E::V>),
            >::Continue((out.deep_view(), error.deep_view())),
        decreases n - index,
    {
        let (k, item) = rest.pop().unwrap();
        assert((k, item) == orig[index as int]);
        match K::parse_key(&k) {
            Some(key) => {
                let at = location.push_key(k.as_str());
                match T::deserialize_from_value(item, at) {
                    Ok(x) => {
                        let ghost before = out;
                        let ghost kv = key.deep_view();
                        let ghost key0 = key;
                        out.insert(key, x);
                        proof {
                            vstd::std_specs::hash::lemma_hashmap_deepview_properties(before);
                            vstd::std_specs::hash::lemma_hashmap_deepview_properties(out);
                            assert(out@ == before@.insert(key0, x));
                            let want = before.deep_view().insert(kv, x.deep_view());
                            let f = |k: K| k.deep_view();
                            assert forall|dk: K::V| #[trigger]
                                out.deep_view().contains_key(dk) == want.contains_key(dk) by {
                                if out.deep_view().contains_key(dk) {
                                    let k0 = choose|k0: K|
                                        k0.deep_view() == dk && #[trigger] out@.contains_key(k0);
                                    if k0 != key0 {
                                        assert(before@.contains_key(k0));
                                    }
                                }
                                if before.deep_view().contains_key(dk) {
                                    let k0 = choose|k0: K|
                                        k0.deep_view() == dk && #[trigger] before@.contains_key(k0);
                                    assert(out@.contains_key(k0));
                                }
                                if dk == kv {
                                    assert(out@.contains_key(key0));
                                }
                            }
                            assert forall|dk: K::V| #[trigger]
                                out.deep_view().contains_key(dk) implies out.deep_view()[dk]
                                == want[dk] by {
                                let k0 = choose|k0: K|
                                    k0.deep_view() == dk && #[trigger] out@.contains_key(k0);
                                if k0 == key0 {
                                    assert(dk == kv);
                                } else {
                                    assert(f(k0) != f(key0));
                                    assert(before@.contains_key(k0));
                                }
                            }
                            assert(out.deep_view() =~= want);
                        }
                    },
                    Err(e) => {
                        match E::merge(error, e, at) {
                            ControlFlow::Continue(acc) => {
                                error = Some(acc);
                            },
                            ControlFlow::Break(fin) => {
                                proof {
                                    lemma_map_pass_stays_stopped::<K, T, E>(
                                        orig,
                                        location.path(),
                                        (index + 1) as nat,
                                        n as nat,
                                    );
                                }
                                return Err(fin);
                            },
                        }
                    },
                }
            },
            None => {
                let msg = bad_key_message::<K>(&k);
                match E::error(error, ErrorKind::Unexpected { msg }, location) {
                    ControlFlow::Continue(acc) => {
                        error = Some(acc);
                    },
                    ControlFlow::Break(fin) => {
                        proof {
                            lemma_map_pass_stays_stopped::<K, T, E>(
                                orig,
                                location.path(),
                                (index + 1) as nat,
                                n as nat,
                            );
                        }
                        return Err(fin);
                    },
                }
            },
        }
        index = index + 1;
    }
    match error {
        Some(e) => Err(e),
        None => Ok(out),
    }
}

/// A map with `u8` keys written in decimal.
impl<T: Deserr<E>, E: DeserializeError> Deserr<E> for HashMap<u8, T> {
    open spec fn spec_deserialize(value: Value, location: Seq<PathStep>) -> Result<
        Map<u8, T::V>,
        E::V,
    > {
        spec_map::<u8, T, E>(value, location)
    }

    fn deserialize_from_value(value: Value, location: ValuePointerRef) -> (r: Result<
        HashMap<u8, T>,
        E,
    >) {
        proof {
            broadcast use vstd::std_specs::hash::group_hash_axioms;

            let f = |k: u8| k.deep_view();
            assert forall|a: u8, b: u8| #[trigger] f(a) == #[trigger] f(b) implies a == b by {}
            assert(vstd::relations::injective(f));
            assert(vstd::std_specs::hash::obeys_key_model::<u8>());
        }
        deserialize_hash_map::<u8, T, E>(value, location)
    }
}

/// A map with `u16` keys written in decimal.
impl<T: Deserr<E>, E: DeserializeError> Deserr<E> for HashMap<u16, T> {
    open spec fn spec_deserialize(value: Value, location: Seq<PathStep>) -> Result<
        Map<u16, T::V>,
        E::V,
    > {
        spec_map::<u16, T, E>(value, location)
    }

    fn deserialize_from_value(value: Value, location: ValuePointerRef) -> (r: Result<
        HashMap<u16, T>,
        E,
    >) {
        proof {
            broadcast use vstd::std_specs::hash::group_hash_axioms;

            let f = |k: u16| k.deep_view();
            assert forall|a: u16, b: u16| #[trigger] f(a) == #[trigger] f(b) implies a == b by {}
            assert(vstd::relations::injective(f));
            assert(vstd::std_specs::hash::obeys_key_model::<u16>());
        }
        deserialize_hash_map::<u16, T, E>(value, location)
    }
}

/// A map with `u32` keys written in decimal.
impl<T: Deserr<E>, E: DeserializeError> Deserr<E> for HashMap<u32, T> {
    open spec fn spec_deserialize(value: Value, location: Seq<PathStep>) -> Result<
        Map<u32, T::V>,
        E::V,
    > {
        spec_map::<u32, T, E>(value, location)
    }

    fn deserialize_from_value(value: Value, location: ValuePointerRef) -> (r: Result<
        HashMap<u32, T>,
        E,
    >) {
        proof {
            broadcast use vstd::std_specs::hash::group_hash_axioms;

            let f = |k: u32| k.deep_view();
            assert forall|a: u32, b: u32| #[trigger] f(a) == #[trigger] f(b) implies a == b by {}
            assert(vstd::relations::injective(f));
            assert(vstd::std_specs::hash::obeys_key_model::<u32>());
        }
        deserialize_hash_map::<u32, T, E>(value, location)
    }
}

/// A map with `u64` keys written in decimal.
impl<T: Deserr<E>, E: DeserializeError> Deserr<E> for HashMap<u64, T> {
    open spec fn spec_deserialize(value: Value, location: Seq<PathStep>) -> Result<
        Map<u64, T::V>,
        E::V,
    > {
        spec_map::<u64, T, E>(value, location)
    }

    fn deserialize_from_value(value: Value, location: ValuePointerRef) -> (r: Result<
        HashMap<u64, T>,
        E,
    >) {
        proof {
            broadcast use vstd::std_specs::hash::group_hash_axioms;

            let f = |k: u64| k.deep_view();
            assert forall|a: u64, b: u64| #[trigger] f(a) == #[trigger] f(b) implies a == b by {}
            assert(vstd::relations::injective(f));
            assert(vstd::std_specs::hash::obeys_key_model::<u64>());
        }
        deserialize_hash_map::<u64, T, E>(value, location)
    }
}

/// A map with `usize` keys written in decimal.
impl<T: Deserr<E>, E: DeserializeError> Deserr<E> for HashMap<usize, T> {
    open spec fn spec_deserialize(value: Value, location: Seq<PathStep>) -> Result<
        Map<usize, T::V>,
        E::V,
    > {
        spec_map::<usize, T, E>(value, location)
    }

    fn deserialize_from_value(value: Value, location: ValuePointerRef) -> (r: Result<
        HashMap<usize, T>,
        E,
    >) {
        proof {
            broadcast use vstd::std_specs::hash::group_hash_axioms;

            let f = |k: usize| k.deep_view();
            assert forall|a: usize, b: usize| #[trigger] f(a) == #[trigger] f(b) implies a == b by {}
            assert(vstd::relations::injective(f));
            assert(vstd::std_specs::hash::obeys_key_model::<usize>());
        }
        deserialize_hash_map::<usize, T, E>(value, location)
    }
}

/// A map with `i8` keys written in decimal.
impl<T: Deserr<E>, E: DeserializeError> Deserr<E> for HashMap<i8, T> {
    open spec fn spec_deserialize(value: Value, location: Seq<PathStep>) -> Result<
        Map<i8, T::V>,
        E::V,
    > {
        spec_map::<i8, T, E>(value, location)
    }

    fn deserialize_from_value(value: Value, location: ValuePointerRef) -> (r: Result<
        HashMap<i8, T>,
        E,
    >) {
        proof {
            broadcast use vstd::std_specs::hash::group_hash_axioms;

            let f = |k: i8| k.deep_view();
            assert forall|a: i8, b: i8| #[trigger] f(a) == #[trigger] f(b) implies a == b by {}
            assert(vstd::relations::injective(f));
            assert(vstd::std_specs::hash::obeys_key_model::<i8>());
        }
        deserialize_hash_map::<i8, T, E>(value, location)
    }
}

/// A map with `i16` keys written in decimal.
impl<T: Deserr<E>, E: DeserializeError> Deserr<E> for HashMap<i16, T> {
    open spec fn spec_deserialize(value: Value, location: Seq<PathStep>) -> Result<
        Map<i16, T::V>,
        E::V,
    > {
        spec_map::<i16, T, E>(value, location)
    }

    fn deserialize_from_value(value: Value, location: ValuePointerRef) -> (r: Result<
        HashMap<i16, T>,
        E,
    >) {
        proof {
            broadcast use vstd::std_specs::hash::group_hash_axioms;

            let f = |k: i16| k.deep_view();
            assert forall|a: i16, b: i16| #[trigger] f(a) == #[trigger] f(b) implies a == b by {}
            assert(vstd::relations::injective(f));
            assert(vstd::std_specs::hash::obeys_key_model::<i16>());
        }
        deserialize_hash_map::<i16, T, E>(value, location)
    }
}

/// A map with `i32` keys written in decimal.
impl<T: Deserr<E>, E: DeserializeError> Deserr<E> for HashMap<i32, T> {
    open spec fn spec_deserialize(value: Value, location: Seq<PathStep>) -> Result<
        Map<i32, T::V>,
        E::V,
    > {
        spec_map::<i32, T, E>(value, location)
    }

    fn deserialize_from_value(value: Value, location: ValuePointerRef) -> (r: Result<
        HashMap<i32, T>,
        E,
    >) {
        proof {
            broadcast use vstd::std_specs::hash::group_hash_axioms;

            let f = |k: i32| k.deep_view();
            assert forall|a: i32, b: i32| #[trigger] f(a) == #[trigger] f(b) implies a == b by {}
            assert(vstd::relations::injective(f));
            assert(vstd::std_specs::hash::obeys_key_model::<i32>());
        }
        deserialize_hash_map::<i32, T, E>(value, location)
    }
}

/// A map with `i64` keys written in decimal.
impl<T: Deserr<E>, E: DeserializeError> Deserr<E> for HashMap<i64, T> {
    open spec fn spec_deserialize(value: Value, location: Seq<PathStep>) -> Result<
        Map<i64, T::V>,
        E::V,
    > {
        spec_map::<i64, T, E>(value, location)
    }

    fn deserialize_from_value(value: Value, location: ValuePointerRef) -> (r: Result<
        HashMap<i64, T>,
        E,
    >) {
        proof {
            broadcast use vstd::std_specs::hash::group_hash_axioms;

            let f = |k: i64| k.deep_view();
            assert forall|a: i64, b: i64| #[trigger] f(a) == #[trigger] f(b) implies a == b by {}
            assert(vstd::relations::injective(f));
            assert(vstd::std_specs::hash::obeys_key_model::<i64>());
        }
        deserialize_hash_map::<i64, T, E>(value, location)
    }
}

/// A map with `isize` keys written in decimal.
impl<T: Deserr<E>, E: DeserializeError> Deserr<E> for HashMap<isize, T> {
    open spec fn spec_deserialize(value: Value, location: Seq<PathStep>) -> Result<
        Map<isize, T::V>,
        E::V,
    > {
        spec_map::<isize, T, E>(value, location)
    }

    fn deserialize_from_value(value: Value, location: ValuePointerRef) -> (r: Result<
        HashMap<isize, T>,
        E,
    >) {
        proof {
            broadcast use vstd::std_specs::hash::group_hash_axioms;

            let f = |k: isize| k.deep_view();
            assert forall|a: isize, b: isize| #[trigger] f(a) == #[trigger] f(b) implies a == b by {}
            assert(vstd::relations::injective(f));
            assert(vstd::std_specs::hash::obeys_key_model::<isize>());
        }
        deserialize_hash_map::<isize, T, E>(value, location)
    }
}

/// The elements read so far by a pass over a sequence, as a set.
pub open spec fn pass_as_set<E>(state: ControlFlow<E, (Seq<u64>, Option<E>)>) -> ControlFlow<
    E,
    (Set<u64>, Option<E>),
> {
    match state {
        ControlFlow::Break(fin) => ControlFlow::Break(fin),
        ControlFlow::Continue((vals, err)) => ControlFlow::Continue((vals.to_set(), err)),
    }
}

/// A set of `u64`, read from a sequence as a list is; equal elements
/// collapse into one.
impl<E: DeserializeError> Deserr<E> for BTreeSet<u64> {
    open spec fn spec_deserialize(value: Value, location: Seq<PathStep>) -> Result<Set<u64>, E::V> {
        match value {
            Value::Sequence(items) => match seq_pass::<u64, E>(items@, location, items@.len()) {
                ControlFlow::Break(fin) => Err(fin),
                ControlFlow::Continue((vals, None)) => Ok(vals.to_set()),
                ControlFlow::Continue((_, Some(e))) => Err(e),
            },
            _ => Err(incorrect_kind::<E>(value, seq![ValueKind::Sequence], location)),
        }
    }

    fn deserialize_from_value(value: Value, location: ValuePointerRef) -> (r: Result<
        BTreeSet<u64>,
        E,
    >) {
        broadcast use vstd::std_specs::btree::group_btree_axioms;
        broadcast use vstd::laws_cmp::group_laws_cmp;

        let items = match value {
            Value::Sequence(items) => items,
            _ => {
                return Err(incorrect_kind_error(value, kinds1(ValueKind::Sequence), location));
            },
        };
        let ghost orig = items@;
        let n = items.len();
        let mut rest = reversed(items);
        let mut out: BTreeSet<u64> = BTreeSet::new();
        let ghost mut vals: Seq<u64> = Seq::empty();
        let mut error: Option<E> = None;
        let mut index: usize = 0;
        proof {
            assert(out.deep_view() =~= vals.to_set());
        }
        while index < n
            invariant
                index <= n == orig.len(),
                value matches Value::Sequence(es) && es@ == orig,
                rest.len() == n - index,
                forall|j: int| 0 <= j < rest.len() ==> rest@[j] == orig[n - 1 - j],
                out.deep_view() == vals.to_set(),
                seq_pass::<u64, E>(orig, location.path(), index as nat) == ControlFlow::<
                    E::V,
                    (Seq<u64>, Option<E::V>),
                >::Continue((vals, error.deep_view())),
            decreases n - index,
        {
            let item = rest.pop().unwrap();
            assert(item == orig[index as int]);
            let at = location.push_index(index);
            match <u64 as Deserr<E>>::deserialize_from_value(item, at) {
                Ok(x) => {
                    let ghost before = out;
                    out.insert(x);
                    proof {
                        assert(vstd::laws_cmp::obeys_cmp::<u64>());
                        assert(out@ == before@.insert(x));
                        let ghost prev = vals;
                        vals = vals.push(x);
                        assert(out.deep_view() =~= vals.to_set()) by {
                            assert(out.deep_view() =~= out@);
                            assert(before.deep_view() =~= before@);
                            prev.lemma_push_to_set_commute(x);
                        }
                    }
                },
                Err(e) => {
                    match E::merge(error, e, at) {
                        ControlFlow::Continue(acc) => {
                            error = Some(acc);
                        },
                        ControlFlow::Break(fin) => {
                            proof {
                                lemma_seq_pass_stays_stopped::<u64, E>(
                                    orig,
                                    location.path(),
                                    (index + 1) as nat,
                                    n as nat,
                                );
                            }
                            return Err(fin);
                        },
                    }
                },
            }
            index = index + 1;
        }
        match error {
            Some(e) => Err(e),
            None => Ok(out),
        }
    }
}

/// A hash set of `u64`, read from a sequence as a list is; equal elements
/// collapse into one.
impl<E: DeserializeError> Deserr<E> for HashSet<u64> {
    open spec fn spec_deserialize(value: Value, location: Seq<PathStep>) -> Result<Set<u64>, E::V> {
        match value {
            Value::Sequence(items) => match seq_pass::<u64, E>(items@, location, items@.len()) {
                ControlFlow::Break(fin) => Err(fin),
                ControlFlow::Continue((vals, None)) => Ok(vals.to_set()),
                ControlFlow::Continue((_, Some(e))) => Err(e),
            },
            _ => Err(incorrect_kind::<E>(value, seq![ValueKind::Sequence], location)),
        }
    }

    fn deserialize_from_value(value: Value, location: ValuePointerRef) -> (r: Result<
        HashSet<u64>,
        E,
    >) {
        broadcast use vstd::std_specs::hash::group_hash_axioms;
        

        let items = match value {
            Value::Sequence(items) => items,
            _ => {
                return Err(incorrect_kind_error(value, kinds1(ValueKind::Sequence), location));
            },
        };
        let ghost orig = items@;
        let n = items.len();
        let mut rest = reversed(items);
        let mut out: HashSet<u64> = HashSet::new();
        let ghost mut vals: Seq<u64> = Seq::empty();
        let mut error: Option<E> = None;
        let mut index: usize = 0;
        proof {
            assert(out.deep_view() =~= vals.to_set());
        }
        while index < n
            invariant
                index <= n == orig.len(),
                value matches Value::Sequence(es) && es@ == orig,
                rest.len() == n - index,
                forall|j: int| 0 <= j < rest.len() ==> rest@[j] == orig[n - 1 - j],
                out.deep_view() == vals.to_set(),
                seq_pass::<u64, E>(orig, location.path(), index as nat) == ControlFlow::<
                    E::V,
                    (Seq<u64>, Option<E::V>),
                >::Continue((vals, error.deep_view())),
            decreases n - index,
        {
            let item = rest.pop().unwrap();
            assert(item == orig[index as int]);
            let at = location.push_index(index);
            match <u64 as Deserr<E>>::deserialize_from_value(item, at) {
                Ok(x) => {
                    let ghost before = out;
                    out.insert(x);
                    proof {
                        assert(vstd::std_specs::hash::obeys_key_model::<u64>());
                        assert(out@ == before@.insert(x));
                        let ghost prev = vals;
                        vals = vals.push(x);
                        assert(out.deep_view() =~= vals.to_set()) by {
                            assert(out.deep_view() =~= out@);
                            assert(before.deep_view() =~= before@);
                            prev.lemma_push_to_set_commute(x);
                        }
                    }
                },
                Err(e) => {
                    match E::merge(error, e, at) {
                        ControlFlow::Continue(acc) => {
                            error = Some(acc);
                        },
                        ControlFlow::Break(fin) => {
                            proof {
                                lemma_seq_pass_stays_stopped::<u64, E>(
                                    orig,
                                    location.path(),
                                    (index + 1) as nat,
                                    n as nat,
                                );
                            }
                            return Err(fin);
                        },
                    }
                },
            }
            index = index + 1;
        }
        match error {
            Some(e) => Err(e),
            None => Ok(out),
        }
    }
}

} // verus!
