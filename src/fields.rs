use crate::impls::{incorrect_kind, incorrect_kind_error, kinds1, reversed};
use crate::value::{PathStep, Value, ValueKind, ValuePointerRef};
use crate::{
    cf_content, take_cf_content, outcome_view, strings_view, DeserializeError, Deserr, ErrorKind, ErrorKindView, FieldState, MergeWithError,
};
use std::ops::ControlFlow;
use vstd::prelude::*;

verus! {

/// The slots of a list of declared fields, one [`FieldState`] each, in the
/// order of the declared keys.
pub trait FieldSlots<E: DeserializeError>: Sized + DeepView {
    /// The slots after reading `value`, found at `location`, into the field
    /// at `index`, with the field's error if it failed.
    spec fn spec_fill(slots: Self::V, index: nat, value: Value, location: Seq<PathStep>) -> (
        Self::V,
        Option<E::V>,
    );

    /// Whether the field at `index` is still missing.
    spec fn spec_is_missing(slots: Self::V, index: nat) -> bool;

    /// Read `value`, found at `location`, into the field at `index`.
    fn fill(&mut self, index: usize, value: Value, location: ValuePointerRef) -> (r: Option<E>)
        ensures
            (final(self).deep_view(), r.deep_view()) == Self::spec_fill(
                old(self).deep_view(),
                index as nat,
                value,
                location.path(),
            ),
    ;

    /// Whether the field at `index` is still missing.
    fn is_missing(&self, index: usize) -> (r: bool)
        ensures
            r == Self::spec_is_missing(self.deep_view(), index as nat),
    ;
}

/// A slot after reading `value` into it as a `T`, with the error if it failed.
pub open spec fn filled<T: Deserr<E>, E: DeserializeError>(
    value: Value,
    location: Seq<PathStep>,
) -> (FieldState<T::V>, Option<E::V>) {
    match T::spec_deserialize(value, location) {
        Ok(x) => (FieldState::Present(x), None),
        Err(e) => (FieldState::Failed, Some(e)),
    }
}

/// Read `value` into a slot as a `T`.
pub fn fill_slot<T: Deserr<E>, E: DeserializeError>(
    slot: &mut FieldState<T>,
    value: Value,
    location: ValuePointerRef,
) -> (r: Option<E>)
    ensures
        (final(slot).deep_view(), r.deep_view()) == filled::<T, E>(value, location.path()),
{
    match T::deserialize_from_value(value, location) {
        Ok(x) => {
            *slot = FieldState::Present(x);
            None
        },
        Err(e) => {
            *slot = FieldState::Failed;
            Some(e)
        },
    }
}

impl<A: Deserr<E>, E: DeserializeError> FieldSlots<E> for FieldState<A> {
    open spec fn spec_fill(slots: FieldState<A::V>, index: nat, value: Value, location: Seq<PathStep>) -> (
        FieldState<A::V>,
        Option<E::V>,
    ) {
        if index == 0 {
            filled::<A, E>(value, location)
        } else {
            (slots, None)
        }
    }

    open spec fn spec_is_missing(slots: FieldState<A::V>, index: nat) -> bool {
        index == 0 && slots is Missing
    }

    fn fill(&mut self, index: usize, value: Value, location: ValuePointerRef) -> (r: Option<E>) {
        if index == 0 {
            fill_slot(self, value, location)
        } else {
            None
        }
    }

    fn is_missing(&self, index: usize) -> (r: bool) {
        index == 0 && FieldState::is_missing(self)
    }
}

impl<A: Deserr<E>, B: Deserr<E>, E: DeserializeError> FieldSlots<E> for (FieldState<A>, FieldState<B>) {
    open spec fn spec_fill(slots: (FieldState<A::V>, FieldState<B::V>), index: nat, value: Value, location: Seq<PathStep>) -> (
        (FieldState<A::V>, FieldState<B::V>),
        Option<E::V>,
    ) {
        if index == 0 {
            let f = filled::<A, E>(value, location);
            ((f.0, slots.1), f.1)
        } else if index == 1 {
            let f = filled::<B, E>(value, location);
            ((slots.0, f.0), f.1)
        } else {
            (slots, None)
        }
    }

    open spec fn spec_is_missing(slots: (FieldState<A::V>, FieldState<B::V>), index: nat) -> bool {
        (index == 0 && slots.0 is Missing) || (index == 1 && slots.1 is Missing)
    }

    fn fill(&mut self, index: usize, value: Value, location: ValuePointerRef) -> (r: Option<E>) {
        if index == 0 {
            fill_slot(&mut self.0, value, location)
        } else if index == 1 {
            fill_slot(&mut self.1, value, location)
        } else {
            None
        }
    }

    fn is_missing(&self, index: usize) -> (r: bool) {
        if index == 0 {
            self.0.is_missing()
        } else if index == 1 {
            self.1.is_missing()
        } else {
            false
        }
    }
}

impl<A: Deserr<E>, B: Deserr<E>, C: Deserr<E>, E: DeserializeError> FieldSlots<E> for (FieldState<A>, FieldState<B>, FieldState<C>) {
    open spec fn spec_fill(slots: (FieldState<A::V>, FieldState<B::V>, FieldState<C::V>), index: nat, value: Value, location: Seq<PathStep>) -> (
        (FieldState<A::V>, FieldState<B::V>, FieldState<C::V>),
        Option<E::V>,
    ) {
        if index == 0 {
            let f = filled::<A, E>(value, location);
            ((f.0, slots.1, slots.2), f.1)
        } else if index == 1 {
            let f = filled::<B, E>(value, location);
            ((slots.0, f.0, slots.2), f.1)
        } else if index == 2 {
            let f = filled::<C, E>(value, location);
            ((slots.0, slots.1, f.0), f.1)
        } else {
            (slots, None)
        }
    }

    open spec fn spec_is_missing(slots: (FieldState<A::V>, FieldState<B::V>, FieldState<C::V>), index: nat) -> bool {
        (index == 0 && slots.0 is Missing) || (index == 1 && slots.1 is Missing) || (index == 2 && slots.2 is Missing)
    }

    fn fill(&mut self, index: usize, value: Value, location: ValuePointerRef) -> (r: Option<E>) {
        if index == 0 {
            fill_slot(&mut self.0, value, location)
        } else if index == 1 {
            fill_slot(&mut self.1, value, location)
        } else if index == 2 {
            fill_slot(&mut self.2, value, location)
        } else {
            None
        }
    }

    fn is_missing(&self, index: usize) -> (r: bool) {
        if index == 0 {
            self.0.is_missing()
        } else if index == 1 {
            self.1.is_missing()
        } else if index == 2 {
            self.2.is_missing()
        } else {
            false
        }
    }
}

impl<A: Deserr<E>, B: Deserr<E>, C: Deserr<E>, D: Deserr<E>, E: DeserializeError> FieldSlots<E> for (FieldState<A>, FieldState<B>, FieldState<C>, FieldState<D>) {
    open spec fn spec_fill(slots: (FieldState<A::V>, FieldState<B::V>, FieldState<C::V>, FieldState<D::V>), index: nat, value: Value, location: Seq<PathStep>) -> (
        (FieldState<A::V>, FieldState<B::V>, FieldState<C::V>, FieldState<D::V>),
        Option<E::V>,
    ) {
        if index == 0 {
            let f = filled::<A, E>(value, location);
            ((f.0, slots.1, slots.2, slots.3), f.1)
        } else if index == 1 {
            let f = filled::<B, E>(value, location);
            ((slots.0, f.0, slots.2, slots.3), f.1)
        } else if index == 2 {
            let f = filled::<C, E>(value, location);
            ((slots.0, slots.1, f.0, slots.3), f.1)
        } else if index == 3 {
            let f = filled::<D, E>(value, location);
            ((slots.0, slots.1, slots.2, f.0), f.1)
        } else {
            (slots, None)
        }
    }

    open spec fn spec_is_missing(slots: (FieldState<A::V>, FieldState<B::V>, FieldState<C::V>, FieldState<D::V>), index: nat) -> bool {
        (index == 0 && slots.0 is Missing) || (index == 1 && slots.1 is Missing) || (index == 2 && slots.2 is Missing) || (index == 3 && slots.3 is Missing)
    }

    fn fill(&mut self, index: usize, value: Value, location: ValuePointerRef) -> (r: Option<E>) {
        if index == 0 {
            fill_slot(&mut self.0, value, location)
        } else if index == 1 {
            fill_slot(&mut self.1, value, location)
        } else if index == 2 {
            fill_slot(&mut self.2, value, location)
        } else if index == 3 {
            fill_slot(&mut self.3, value, location)
        } else {
            None
        }
    }

    fn is_missing(&self, index: usize) -> (r: bool) {
        if index == 0 {
            self.0.is_missing()
        } else if index == 1 {
            self.1.is_missing()
        } else if index == 2 {
            self.2.is_missing()
        } else if index == 3 {
            self.3.is_missing()
        } else {
            false
        }
    }
}


/// No declared field: every key of the map is unknown.
impl<E: DeserializeError> FieldSlots<E> for () {
    open spec fn spec_fill(slots: (), index: nat, value: Value, location: Seq<PathStep>) -> (
        (),
        Option<E::V>,
    ) {
        ((), None)
    }

    open spec fn spec_is_missing(slots: (), index: nat) -> bool {
        false
    }

    fn fill(&mut self, index: usize, value: Value, location: ValuePointerRef) -> (r: Option<E>) {
        None
    }

    fn is_missing(&self, index: usize) -> (r: bool) {
        false
    }
}

/// The first index below `n` at which `keys` holds `k`.
pub open spec fn key_index_below(keys: Seq<Seq<char>>, k: Seq<char>, n: nat) -> Option<int>
    decreases n,
{
    if n == 0 {
        None
    } else {
        match key_index_below(keys, k, (n - 1) as nat) {
            Some(i) => Some(i),
            None => if keys[n - 1] == k {
                Some(n - 1)
            } else {
                None
            },
        }
    }
}

/// The first index at which `keys` holds `k`.
pub open spec fn key_index(keys: Seq<Seq<char>>, k: Seq<char>) -> Option<int> {
    key_index_below(keys, k, keys.len())
}

pub proof fn lemma_key_index_below_bounds(keys: Seq<Seq<char>>, k: Seq<char>, n: nat)
    requires
        n <= keys.len(),
    ensures
        key_index_below(keys, k, n) matches Some(i) ==> 0 <= i < n && keys[i] == k,
        key_index_below(keys, k, n) is None ==> forall|j: int| 0 <= j < n ==> keys[j] != k,
    decreases n,
{
    if n > 0 {
        lemma_key_index_below_bounds(keys, k, (n - 1) as nat);
    }
}

/// Where `k` stands among `keys`, if it does.
pub fn find_key(keys: &Vec<String>, k: &String) -> (r: Option<usize>)
    ensures
        match r {
            Some(i) => key_index(strings_view(keys@), k@) == Some(i as int),
            None => key_index(strings_view(keys@), k@) is None,
        },
{
    let ghost ks = strings_view(keys@);
    let mut j: usize = 0;
    while j < keys.len()
        invariant
            j <= keys.len() == ks.len(),
            ks == strings_view(keys@),
            key_index_below(ks, k@, j as nat) is None,
        decreases keys.len() - j,
    {
        if keys[j] == *k {
            assert(ks[j as int] == k@);
            proof {
                lemma_key_index_prefix(ks, k@, (j + 1) as nat, ks.len());
            }
            return Some(j);
        }
        j = j + 1;
    }
    None
}

pub proof fn lemma_key_index_prefix(keys: Seq<Seq<char>>, k: Seq<char>, m: nat, n: nat)
    requires
        m <= n,
        key_index_below(keys, k, m) is Some,
    ensures
        key_index_below(keys, k, n) == key_index_below(keys, k, m),
    decreases n - m,
{
    if m < n {
        lemma_key_index_prefix(keys, k, m, (n - 1) as nat);
    }
}

/// A copy of a list of strings.
pub fn copy_strings(v: &Vec<String>) -> (r: Vec<String>)
    ensures
        strings_view(r@) == strings_view(v@),
{
    let mut r: Vec<String> = Vec::new();
    let mut j: usize = 0;
    while j < v.len()
        invariant
            j <= v.len(),
            r.len() == j,
            forall|i: int| 0 <= i < j ==> r@[i]@ == v@[i]@,
        decreases v.len() - j,
    {
        r.push(v[j].clone());
        j = j + 1;
    }
    assert(strings_view(r@) =~= strings_view(v@));
    r
}

/// One entry of a map read into the declared fields: a known key fills its
/// field, and an unknown key is ignored or refused.
pub open spec fn entry_step<S: FieldSlots<E>, E: DeserializeError>(
    state: (S::V, Option<E::V>),
    entry: (String, Value),
    keys: Seq<Seq<char>>,
    deny_unknown_fields: bool,
    location: Seq<PathStep>,
) -> ControlFlow<E::V, (S::V, Option<E::V>)> {
    let (slots, err) = state;
    match key_index(keys, entry.0@) {
        Some(i) => {
            let at = location.push(PathStep::Key(entry.0@));
            let (next, failure) = S::spec_fill(slots, i as nat, entry.1, at);
            match failure {
                None => ControlFlow::Continue((next, err)),
                Some(e) => match E::spec_merge(err, e, at) {
                    ControlFlow::Continue(acc) => ControlFlow::Continue((next, Some(acc))),
                    ControlFlow::Break(fin) => ControlFlow::Break(fin),
                },
            }
        },
        None => if deny_unknown_fields {
            match E::spec_error(
                err,
                ErrorKindView::UnknownKey { key: entry.0@, accepted: keys },
                location,
            ) {
                ControlFlow::Continue(acc) => ControlFlow::Continue((slots, Some(acc))),
                ControlFlow::Break(fin) => ControlFlow::Break(fin),
            }
        } else {
            ControlFlow::Continue((slots, err))
        },
    }
}

/// The state after reading the first `n` entries of a map, in order.
pub open spec fn fields_pass<S: FieldSlots<E>, E: DeserializeError>(
    init: S::V,
    entries: Seq<(String, Value)>,
    keys: Seq<Seq<char>>,
    deny_unknown_fields: bool,
    location: Seq<PathStep>,
    n: nat,
) -> ControlFlow<E::V, (S::V, Option<E::V>)>
    decreases n,
{
    if n == 0 {
        ControlFlow::Continue((init, None))
    } else {
        match fields_pass::<S, E>(init, entries, keys, deny_unknown_fields, location, (n - 1) as nat) {
            ControlFlow::Break(fin) => ControlFlow::Break(fin),
            ControlFlow::Continue(state) => entry_step::<S, E>(
                state,
                entries[n - 1],
                keys,
                deny_unknown_fields,
                location,
            ),
        }
    }
}

/// The error that a field declares for its absence, if it declares one.
pub open spec fn custom_at<T>(custom: Seq<Option<T>>, i: int) -> Option<T> {
    if 0 <= i < custom.len() {
        custom[i]
    } else {
        None
    }
}

/// The error after looking for absence in the first `m` declared fields: a
/// missing field adds its own declared error if it has one, else a
/// missing-field error under its key.
pub open spec fn missing_pass<S: FieldSlots<E>, E: DeserializeError>(
    slots: S::V,
    err: Option<E::V>,
    keys: Seq<Seq<char>>,
    custom: Seq<Option<E::V>>,
    location: Seq<PathStep>,
    m: nat,
) -> ControlFlow<E::V, Option<E::V>>
    decreases m,
{
    if m == 0 {
        ControlFlow::Continue(err)
    } else {
        match missing_pass::<S, E>(slots, err, keys, custom, location, (m - 1) as nat) {
            ControlFlow::Break(fin) => ControlFlow::Break(fin),
            ControlFlow::Continue(acc) => if S::spec_is_missing(slots, (m - 1) as nat) {
                let step = match custom_at(custom, m - 1) {
                    Some(c) => E::spec_merge(acc, c, location),
                    None => E::spec_error(
                        acc,
                        ErrorKindView::MissingField { field: keys[m - 1] },
                        location,
                    ),
                };
                match step {
                    ControlFlow::Continue(next) => ControlFlow::Continue(Some(next)),
                    ControlFlow::Break(fin) => ControlFlow::Break(fin),
                }
            } else {
                ControlFlow::Continue(acc)
            },
        }
    }
}

/// The outcome of reading `value` into the declared fields `keys`, starting
/// from the slots `init`; `custom` holds the error that each field declares
/// for its absence, if any.
pub open spec fn spec_named_fields<S: FieldSlots<E>, E: DeserializeError>(
    value: Value,
    location: Seq<PathStep>,
    keys: Seq<Seq<char>>,
    custom: Seq<Option<E::V>>,
    deny_unknown_fields: bool,
    init: S::V,
) -> Result<S::V, E::V> {
    match value {
        Value::Object(entries) => match fields_pass::<S, E>(
            init,
            entries@,
            keys,
            deny_unknown_fields,
            location,
            entries@.len(),
        ) {
            ControlFlow::Break(fin) => Err(fin),
            ControlFlow::Continue((slots, err)) => match missing_pass::<S, E>(
                slots,
                err,
                keys,
                custom,
                location,
                keys.len(),
            ) {
                ControlFlow::Break(fin) => Err(fin),
                ControlFlow::Continue(Some(e)) => Err(e),
                ControlFlow::Continue(None) => Ok(slots),
            },
        },
        _ => Err(incorrect_kind::<E>(value, seq![ValueKind::Object], location)),
    }
}

pub proof fn lemma_fields_pass_stays_stopped<S: FieldSlots<E>, E: DeserializeError>(
    init: S::V,
    entries: Seq<(String, Value)>,
    keys: Seq<Seq<char>>,
    deny_unknown_fields: bool,
    location: Seq<PathStep>,
    k: nat,
    n: nat,
)
    requires
        k <= n,
        fields_pass::<S, E>(init, entries, keys, deny_unknown_fields, location, k) is Break,
    ensures
        fields_pass::<S, E>(init, entries, keys, deny_unknown_fields, location, n)
            == fields_pass::<S, E>(init, entries, keys, deny_unknown_fields, location, k),
    decreases n - k,
{
    if k < n {
        lemma_fields_pass_stays_stopped::<S, E>(
            init,
            entries,
            keys,
            deny_unknown_fields,
            location,
            k,
            (n - 1) as nat,
        );
    }
}

pub proof fn lemma_missing_pass_stays_stopped<S: FieldSlots<E>, E: DeserializeError>(
    slots: S::V,
    err: Option<E::V>,
    keys: Seq<Seq<char>>,
    custom: Seq<Option<E::V>>,
    location: Seq<PathStep>,
    k: nat,
    n: nat,
)
    requires
        k <= n,
        missing_pass::<S, E>(slots, err, keys, custom, location, k) is Break,
    ensures
        missing_pass::<S, E>(slots, err, keys, custom, location, n) == missing_pass::<S, E>(
            slots,
            err,
            keys,
            custom,
            location,
            k,
        ),
    decreases n - k,
{
    if k < n {
        lemma_missing_pass_stays_stopped::<S, E>(
            slots,
            err,
            keys,
            custom,
            location,
            k,
            (n - 1) as nat,
        );
    }
}

/// Read a map into the declared fields `keys`, starting from the slots
/// `slots` (a field with a default starts out present).
///
/// The map's entries are read once, in order. A known key fills its field at
/// the key's location, merging the error if it fails. An unknown key is
/// ignored, or refused when `deny_unknown_fields` holds. Then each field that
/// is still missing is reported, in declaration order: with the error that
/// `missing_errors` holds at its index, if any, else as a missing field.
pub fn deserialize_named_fields<S: FieldSlots<E>, E: DeserializeError>(
    value: Value,
    location: ValuePointerRef,
    keys: &Vec<String>,
    missing_errors: Vec<Option<E>>,
    deny_unknown_fields: bool,
    slots: S,
) -> (r: Result<S, E>)
    ensures
        outcome_view(r) == spec_named_fields::<S, E>(
            value,
            location.path(),
            strings_view(keys@),
            missing_errors.deep_view(),
            deny_unknown_fields,
            slots.deep_view(),
        ),
{
    let ghost cs = missing_errors.deep_view();
    let ghost cs_orig = missing_errors@;
    let ghost ks = strings_view(keys@);
    let ghost init = slots.deep_view();
    let ghost loc = location.path();
    let entries = match value {
        Value::Object(entries) => entries,
        _ => {
            return Err(incorrect_kind_error(value, kinds1(ValueKind::Object), location));
        },
    };
    let ghost orig = entries@;
    let n = entries.len();
    let mut rest = reversed(entries);
    let mut cur = slots;
    let mut error: Option<E> = None;
    let mut index: usize = 0;
    while index < n
        invariant
            index <= n == orig.len(),
            value matches Value::Object(es) && es@ == orig,
            init == slots.deep_view(),
            cs == missing_errors.deep_view(),
            cs_orig == missing_errors@,
            ks == strings_view(keys@),
            loc == location.path(),
            rest.len() == n - index,
            forall|j: int| 0 <= j < rest.len() ==> rest@[j] == orig[n - 1 - j],
            fields_pass::<S, E>(init, orig, ks, deny_unknown_fields, loc, index as nat)
                == ControlFlow::<E::V, (S::V, Option<E::V>)>::Continue(
                (cur.deep_view(), error.deep_view()),
            ),
        decreases n - index,
    {
        let (key, item) = rest.pop().unwrap();
        assert((key, item) == orig[index as int]);
        match find_key(keys, &key) {
            Some(i) => {
                let at = location.push_key(key.as_str());
                match cur.fill(i, item, at) {
                    None => {},
                    Some(e) => {
                        match E::merge(error, e, at) {
                            ControlFlow::Continue(acc) => {
                                error = Some(acc);
                            },
                            ControlFlow::Break(fin) => {
                                proof {
                                    lemma_fields_pass_stays_stopped::<S, E>(
                                        init,
                                        orig,
                                        ks,
                                        deny_unknown_fields,
                                        loc,
                                        (index + 1) as nat,
                                        n as nat,
                                    );
                                }
                                return Err(fin);
                            },
                        }
                    },
                }
            },
            None => {
                if deny_unknown_fields {
                    let kind = ErrorKind::UnknownKey { key, accepted: copy_strings(keys) };
                    match E::error(error, kind, location) {
                        ControlFlow::Continue(acc) => {
                            error = Some(acc);
                        },
                        ControlFlow::Break(fin) => {
                            proof {
                                lemma_fields_pass_stays_stopped::<S, E>(
                                    init,
                                    orig,
                                    ks,
                                    deny_unknown_fields,
                                    loc,
                                    (index + 1) as nat,
                                    n as nat,
                                );
                            }
                            return Err(fin);
                        },
                    }
                }
            },
        }
        index = index + 1;
    }
    let ghost after = cur.deep_view();
    let ghost err0 = error.deep_view();
    let m = keys.len();
    let clen = missing_errors.len();
    let mut pending = reversed(missing_errors);
    let mut f: usize = 0;
    while f < m
        invariant
            f <= m == ks.len(),
            value matches Value::Object(es) && es@ == orig,
            init == slots.deep_view(),
            cs == missing_errors.deep_view(),
            cs_orig == missing_errors@,
            n == orig.len(),
            fields_pass::<S, E>(init, orig, ks, deny_unknown_fields, loc, n as nat)
                == ControlFlow::<E::V, (S::V, Option<E::V>)>::Continue((after, err0)),
            ks == strings_view(keys@),
            loc == location.path(),
            cur.deep_view() == after,
            clen == cs_orig.len() == cs.len(),
            cs == cs_orig.map_values(|c: Option<E>| c.deep_view()),
            pending.len() == if f < clen {
                clen - f
            } else {
                0
            },
            forall|j: int| 0 <= j < pending.len() ==> pending@[j] == cs_orig[clen - 1 - j],
            missing_pass::<S, E>(after, err0, ks, cs, loc, f as nat) == ControlFlow::<
                E::V,
                Option<E::V>,
            >::Continue(error.deep_view()),
        decreases m - f,
    {
        let declared: Option<E> = if f < clen {
            pending.pop().unwrap()
        } else {
            None
        };
        assert(declared.deep_view() == crate::fields::custom_at(cs, f as int));
        if cur.is_missing(f) {
            let step = match declared {
                Some(c) => E::merge(error, c, location),
                None => {
                    let field = keys[f].clone();
                    E::error(error, ErrorKind::MissingField { field }, location)
                },
            };
            match step {
                ControlFlow::Continue(acc) => {
                    error = Some(acc);
                },
                ControlFlow::Break(fin) => {
                    proof {
                        lemma_missing_pass_stays_stopped::<S, E>(
                            after,
                            err0,
                            ks,
                            cs,
                            loc,
                            (f + 1) as nat,
                            m as nat,
                        );
                    }
                    return Err(fin);
                },
            }
        }
        f = f + 1;
    }
    match error {
        Some(e) => Err(e),
        None => Ok(cur),
    }
}


/// The outcome of a value validated, or converted, after it was read: a
/// failure of the validation is merged into a fresh error at `location`, where the
/// whole value was read.
pub open spec fn spec_validated<T, X: DeepView, E: DeserializeError + MergeWithError<X>>(
    outcome: Result<T, X>,
    location: Seq<PathStep>,
) -> Result<T, E::V> {
    match outcome {
        Ok(t) => Ok(t),
        Err(x) => Err(cf_content(<E as MergeWithError<X>>::spec_merge(None, x.deep_view(), location))),
    }
}

/// Route the outcome of a validation or of a fallible conversion, run on a
/// value read at `location`, through the error contract.
pub fn merge_validation<T, X: DeepView, E: DeserializeError + MergeWithError<X>>(
    outcome: Result<T, X>,
    location: ValuePointerRef,
) -> (r: Result<T, E>)
    ensures
        match r {
            Ok(t) => spec_validated::<T, X, E>(outcome, location.path()) == Ok::<T, E::V>(t),
            Err(e) => spec_validated::<T, X, E>(outcome, location.path()) == Err::<T, E::V>(
                e.deep_view(),
            ),
        },
{
    match outcome {
        Ok(t) => Ok(t),
        Err(x) => Err(take_cf_content(<E as MergeWithError<X>>::merge(None, x, location))),
    }
}

} // verus!
