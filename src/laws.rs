use crate::default_error::{
    content_of, gathered, DefaultError, DefaultErrorContentView, DefaultErrorView, ErrorList,
};
use crate::fields::{
    filled, entry_step, fields_pass, key_index, key_index_below, lemma_key_index_below_bounds,
    missing_pass, spec_named_fields, FieldSlots,
};
use crate::impls::{seq_pass, spec_items};
use crate::variants::{entry_index, spec_tag, spec_unit_variant};
use crate::value::{PathStep, Value};
use crate::{DeserializeError, Deserr, ErrorKindView, FieldState, MergeWithError};
use std::ops::ControlFlow;
use vstd::prelude::*;

verus! {

/// Whether a pass state holds an error: stopped, or going on with one.
pub open spec fn holds_error<S, E>(state: ControlFlow<E, (S, Option<E>)>) -> bool {
    match state {
        ControlFlow::Break(_) => true,
        ControlFlow::Continue((_, err)) => err is Some,
    }
}

/// Whether the pass for missing fields holds an error.
pub open spec fn missing_holds_error<E>(state: ControlFlow<E, Option<E>>) -> bool {
    match state {
        ControlFlow::Break(_) => true,
        ControlFlow::Continue(err) => err is Some,
    }
}

/// Once the pass over a map's entries holds an error, it keeps holding one.
pub proof fn lemma_fields_error_sticks<S: FieldSlots<E>, E: DeserializeError>(
    init: S::V,
    entries: Seq<(String, Value)>,
    keys: Seq<Seq<char>>,
    deny_unknown_fields: bool,
    location: Seq<PathStep>,
    m: nat,
    n: nat,
)
    requires
        m <= n,
        holds_error(fields_pass::<S, E>(init, entries, keys, deny_unknown_fields, location, m)),
    ensures
        holds_error(fields_pass::<S, E>(init, entries, keys, deny_unknown_fields, location, n)),
    decreases n - m,
{
    if m < n {
        lemma_fields_error_sticks::<S, E>(
            init,
            entries,
            keys,
            deny_unknown_fields,
            location,
            m,
            (n - 1) as nat,
        );
    }
}

/// Once the pass for missing fields holds an error, it keeps holding one.
pub proof fn lemma_missing_error_sticks<S: FieldSlots<E>, E: DeserializeError>(
    slots: S::V,
    err: Option<E::V>,
    keys: Seq<Seq<char>>,
    custom: Seq<Option<E::V>>,
    location: Seq<PathStep>,
    m: nat,
    n: nat,
)
    requires
        m <= n,
        missing_holds_error(missing_pass::<S, E>(slots, err, keys, custom, location, m)),
    ensures
        missing_holds_error(missing_pass::<S, E>(slots, err, keys, custom, location, n)),
    decreases n - m,
{
    if m < n {
        lemma_missing_error_sticks::<S, E>(slots, err, keys, custom, location, m, (n - 1) as nat);
    }
}

/// When the pass over the entries ends holding an error, the named-field
/// reading fails.
proof fn lemma_error_after_entries_fails<S: FieldSlots<E>, E: DeserializeError>(
    entries: Vec<(String, Value)>,
    location: Seq<PathStep>,
    keys: Seq<Seq<char>>,
    custom: Seq<Option<E::V>>,
    deny_unknown_fields: bool,
    init: S::V,
)
    requires
        holds_error(
            fields_pass::<S, E>(
                init,
                entries@,
                keys,
                deny_unknown_fields,
                location,
                entries@.len(),
            ),
        ),
    ensures
        spec_named_fields::<S, E>(
            Value::Object(entries),
            location,
            keys,
            custom,
            deny_unknown_fields,
            init,
        ) is Err,
{
    let st = fields_pass::<S, E>(init, entries@, keys, deny_unknown_fields, location, entries@.len());
    if let ControlFlow::Continue((slots, err)) = st {
        lemma_missing_error_sticks::<S, E>(slots, err, keys, custom, location, 0, keys.len());
    }
}

/// Fail-fast: once merging a failure stops the pass over a map, the result
/// is that error, whatever the entries that follow hold.
pub proof fn lemma_stop_is_final<S: FieldSlots<E>, E: DeserializeError>(
    entries: Vec<(String, Value)>,
    location: Seq<PathStep>,
    keys: Seq<Seq<char>>,
    custom: Seq<Option<E::V>>,
    deny_unknown_fields: bool,
    init: S::V,
    k: nat,
    fin: E::V,
)
    requires
        k <= entries@.len(),
        fields_pass::<S, E>(init, entries@, keys, deny_unknown_fields, location, k)
            == ControlFlow::<E::V, (S::V, Option<E::V>)>::Break(fin),
    ensures
        spec_named_fields::<S, E>(
            Value::Object(entries),
            location,
            keys,
            custom,
            deny_unknown_fields,
            init,
        ) == Err::<S::V, E::V>(fin),
{
    crate::fields::lemma_fields_pass_stays_stopped::<S, E>(
        init,
        entries@,
        keys,
        deny_unknown_fields,
        location,
        k,
        entries@.len(),
    );
}

/// Under the refusing policy, a map with a key that no declared field uses
/// fails to read.
pub proof fn lemma_unknown_key_refused<S: FieldSlots<E>, E: DeserializeError>(
    entries: Vec<(String, Value)>,
    location: Seq<PathStep>,
    keys: Seq<Seq<char>>,
    custom: Seq<Option<E::V>>,
    init: S::V,
    j: int,
)
    requires
        0 <= j < entries@.len(),
        key_index(keys, entries@[j].0@) is None,
    ensures
        spec_named_fields::<S, E>(Value::Object(entries), location, keys, custom, true, init) is Err,
{
    let n = entries@.len();
    let before = fields_pass::<S, E>(init, entries@, keys, true, location, j as nat);
    if before is Continue {
        assert(holds_error(fields_pass::<S, E>(init, entries@, keys, true, location, (j + 1) as nat)));
        lemma_fields_error_sticks::<S, E>(init, entries@, keys, true, location, (j + 1) as nat, n);
    } else {
        lemma_fields_error_sticks::<S, E>(init, entries@, keys, true, location, j as nat, n);
    }
    lemma_error_after_entries_fails::<S, E>(entries, location, keys, custom, true, init);
}

/// Under the permissive policy, an entry whose key no declared field uses
/// leaves the state of the pass as it was.
pub proof fn lemma_unknown_key_ignored<S: FieldSlots<E>, E: DeserializeError>(
    state: (S::V, Option<E::V>),
    entry: (String, Value),
    keys: Seq<Seq<char>>,
    location: Seq<PathStep>,
)
    requires
        key_index(keys, entry.0@) is None,
    ensures
        entry_step::<S, E>(state, entry, keys, false, location) == ControlFlow::<
            E::V,
            (S::V, Option<E::V>),
        >::Continue(state),
{
}

/// Filling one field leaves the absence of every other field as it was, and
/// a filled field is no longer missing.
pub open spec fn fills_keep_others<S: FieldSlots<E>, E: DeserializeError>(i: nat) -> bool {
    forall|slots: S::V, j: nat, v: Value, at: Seq<PathStep>|
        j != i ==> #[trigger] S::spec_is_missing(S::spec_fill(slots, j, v, at).0, i)
            == S::spec_is_missing(slots, i)
}

proof fn lemma_absent_key_stays_missing<S: FieldSlots<E>, E: DeserializeError>(
    init: S::V,
    entries: Seq<(String, Value)>,
    keys: Seq<Seq<char>>,
    deny_unknown_fields: bool,
    location: Seq<PathStep>,
    i: nat,
    n: nat,
)
    requires
        i < keys.len(),
        n <= entries.len(),
        forall|j: int| 0 <= j < entries.len() ==> entries[j].0@ != keys[i as int],
        S::spec_is_missing(init, i),
        fills_keep_others::<S, E>(i),
    ensures
        fields_pass::<S, E>(init, entries, keys, deny_unknown_fields, location, n) matches ControlFlow::Continue((s, _))
            ==> S::spec_is_missing(s, i),
    decreases n,
{
    if n > 0 {
        lemma_absent_key_stays_missing::<S, E>(
            init,
            entries,
            keys,
            deny_unknown_fields,
            location,
            i,
            (n - 1) as nat,
        );
        let k = entries[n - 1].0@;
        lemma_key_index_below_bounds(keys, k, keys.len());
        let prev = fields_pass::<S, E>(
            init,
            entries,
            keys,
            deny_unknown_fields,
            location,
            (n - 1) as nat,
        );
        if let ControlFlow::Continue((s, err)) = prev {
            if let Some(j) = key_index(keys, k) {
                let at = location.push(PathStep::Key(k));
                assert(S::spec_is_missing(S::spec_fill(s, j as nat, entries[n - 1].1, at).0, i)
                    == S::spec_is_missing(s, i));
            }
        }
    }
}

/// A map without the key of a required field (one whose slot starts out
/// missing) fails to read: no value is built from the other fields.
pub proof fn lemma_missing_field_fails<S: FieldSlots<E>, E: DeserializeError>(
    entries: Vec<(String, Value)>,
    location: Seq<PathStep>,
    keys: Seq<Seq<char>>,
    custom: Seq<Option<E::V>>,
    deny_unknown_fields: bool,
    init: S::V,
    i: nat,
)
    requires
        i < keys.len(),
        forall|j: int| 0 <= j < entries@.len() ==> entries@[j].0@ != keys[i as int],
        S::spec_is_missing(init, i),
        fills_keep_others::<S, E>(i),
    ensures
        spec_named_fields::<S, E>(
            Value::Object(entries),
            location,
            keys,
            custom,
            deny_unknown_fields,
            init,
        ) is Err,
{
    let n = entries@.len();
    lemma_absent_key_stays_missing::<S, E>(
        init,
        entries@,
        keys,
        deny_unknown_fields,
        location,
        i,
        n,
    );
    let st = fields_pass::<S, E>(init, entries@, keys, deny_unknown_fields, location, n);
    if let ControlFlow::Continue((slots, err)) = st {
        assert(missing_holds_error(missing_pass::<S, E>(slots, err, keys, custom, location, i + 1)));
        lemma_missing_error_sticks::<S, E>(slots, err, keys, custom, location, i + 1, keys.len());
    }
}


/// The content of a `ControlFlow` that goes on.
pub open spec fn continued<B, C>(c: ControlFlow<B, C>) -> C {
    match c {
        ControlFlow::Continue(x) => x,
        ControlFlow::Break(_) => arbitrary(),
    }
}

/// `a` is the start of `b`.
pub open spec fn is_prefix<T>(a: Seq<T>, b: Seq<T>) -> bool {
    a.len() <= b.len() && b.subrange(0, a.len() as int) == a
}

/// The failures gathered by a pass state of an accumulating error.
pub open spec fn gathered_in<S>(
    state: ControlFlow<Seq<DefaultErrorView>, (S, Option<Seq<DefaultErrorView>>)>,
) -> Seq<DefaultErrorView> {
    match state {
        ControlFlow::Break(l) => l,
        ControlFlow::Continue((_, err)) => gathered(err),
    }
}

/// With an accumulating error, the pass over a map never stops early, and
/// what it has gathered only grows.
pub proof fn lemma_gathering_grows<S: FieldSlots<ErrorList>>(
    init: S::V,
    entries: Seq<(String, Value)>,
    keys: Seq<Seq<char>>,
    deny_unknown_fields: bool,
    location: Seq<PathStep>,
    m: nat,
    n: nat,
)
    requires
        m <= n <= entries.len(),
    ensures
        fields_pass::<S, ErrorList>(init, entries, keys, deny_unknown_fields, location, n) is Continue,
        is_prefix(
            gathered_in(fields_pass::<S, ErrorList>(init, entries, keys, deny_unknown_fields, location, m)),
            gathered_in(fields_pass::<S, ErrorList>(init, entries, keys, deny_unknown_fields, location, n)),
        ),
    decreases n,
{
    let fp = |k: nat| fields_pass::<S, ErrorList>(init, entries, keys, deny_unknown_fields, location, k);
    if n == 0 {
        assert(gathered_in(fp(0)).subrange(0, 0) =~= gathered_in(fp(0)));
    } else if m == n {
        lemma_gathering_grows::<S>(init, entries, keys, deny_unknown_fields, location, 0, (n - 1) as nat);
        assert(gathered_in(fp(n)).subrange(0, gathered_in(fp(n)).len() as int) =~= gathered_in(fp(n)));
    } else {
        lemma_gathering_grows::<S>(init, entries, keys, deny_unknown_fields, location, m, (n - 1) as nat);
        let prev = gathered_in(fp((n - 1) as nat));
        let next = gathered_in(fp(n));
        assert(is_prefix(prev, next)) by {
            assert(next.subrange(0, prev.len() as int) =~= prev);
        }
        let first = gathered_in(fp(m));
        assert(next.subrange(0, first.len() as int) =~= prev.subrange(0, first.len() as int));
    }
}

/// With an accumulating error, the pass for missing fields never stops
/// early, and what it has gathered only grows.
pub proof fn lemma_missing_gathering_grows<S: FieldSlots<ErrorList>>(
    slots: S::V,
    err: Option<Seq<DefaultErrorView>>,
    keys: Seq<Seq<char>>,
    custom: Seq<Option<Seq<DefaultErrorView>>>,
    location: Seq<PathStep>,
    n: nat,
)
    requires
        n <= keys.len(),
    ensures
        missing_pass::<S, ErrorList>(slots, err, keys, custom, location, n) matches ControlFlow::Continue(e)
            && is_prefix(gathered(err), gathered(e)),
    decreases n,
{
    if n == 0 {
        assert(gathered(err).subrange(0, gathered(err).len() as int) =~= gathered(err));
    } else {
        lemma_missing_gathering_grows::<S>(slots, err, keys, custom, location, (n - 1) as nat);
        let prev = continued(missing_pass::<S, ErrorList>(slots, err, keys, custom, location, (n - 1) as nat));
        let next = continued(missing_pass::<S, ErrorList>(slots, err, keys, custom, location, n));
        assert(gathered(next).subrange(0, gathered(err).len() as int) =~= gathered(
            prev,
        ).subrange(0, gathered(err).len() as int));
    }
}

/// The field of entry `a` fails on its value alone, with `failure`.
pub open spec fn fails_alone<S: FieldSlots<E>, E: DeserializeError>(
    entries: Seq<(String, Value)>,
    keys: Seq<Seq<char>>,
    location: Seq<PathStep>,
    a: int,
    failure: E::V,
) -> bool {
    &&& key_index(keys, entries[a].0@) is Some
    &&& forall|slots: S::V|
        #[trigger] S::spec_fill(
            slots,
            key_index(keys, entries[a].0@)->Some_0 as nat,
            entries[a].1,
            location.push(PathStep::Key(entries[a].0@)),
        ).1 == Some(failure)
}

/// `part` stands somewhere in `whole`, in one piece.
pub open spec fn contains_run<T>(whole: Seq<T>, part: Seq<T>) -> bool {
    exists|off: int|
        0 <= off && off + part.len() <= whole.len() && #[trigger] whole.subrange(
            off,
            off + part.len(),
        ) == part
}

/// With an accumulating error, the failures of a field that fails on its
/// value alone are all in the final error.
pub proof fn lemma_failure_reported<S: FieldSlots<ErrorList>>(
    entries: Vec<(String, Value)>,
    location: Seq<PathStep>,
    keys: Seq<Seq<char>>,
    custom: Seq<Option<Seq<DefaultErrorView>>>,
    deny_unknown_fields: bool,
    init: S::V,
    a: int,
    failure: Seq<DefaultErrorView>,
)
    requires
        0 <= a < entries@.len(),
        fails_alone::<S, ErrorList>(entries@, keys, location, a, failure),
    ensures
        spec_named_fields::<S, ErrorList>(
            Value::Object(entries),
            location,
            keys,
            custom,
            deny_unknown_fields,
            init,
        ) matches Err(list) && contains_run(list, failure),
{
    let es = entries@;
    let n = es.len();
    let fp = |k: nat| fields_pass::<S, ErrorList>(init, es, keys, deny_unknown_fields, location, k);
    lemma_gathering_grows::<S>(init, es, keys, deny_unknown_fields, location, a as nat, a as nat);
    lemma_gathering_grows::<S>(init, es, keys, deny_unknown_fields, location, (a + 1) as nat, n);
    let (s_a, err_a) = continued(fp(a as nat));
    let i = key_index(keys, es[a].0@)->Some_0;
    let at = location.push(PathStep::Key(es[a].0@));
    assert(S::spec_fill(s_a, i as nat, es[a].1, at).1 == Some(failure));
    let after = gathered_in(fp((a + 1) as nat));
    assert(after == gathered(err_a) + failure);
    let (s_n, err_n) = continued(fp(n));
    lemma_missing_gathering_grows::<S>(s_n, err_n, keys, custom, location, keys.len());
    let fin = continued(missing_pass::<S, ErrorList>(s_n, err_n, keys, custom, location, keys.len()));
    let list = gathered(fin);
    let off = gathered(err_a).len() as int;
    let mid = gathered(err_n);
    assert(is_prefix(after, mid));
    assert(is_prefix(mid, list));
    assert(list.subrange(0, after.len() as int) =~= mid.subrange(0, after.len() as int));
    assert(list.subrange(off, off + failure.len()) =~= after.subrange(off, off + failure.len()));
    assert(list.subrange(off, off + failure.len()) =~= failure);
    lemma_fields_error_sticks::<S, ErrorList>(
        init,
        es,
        keys,
        deny_unknown_fields,
        location,
        (a + 1) as nat,
        n,
    );
    lemma_missing_error_sticks::<S, ErrorList>(s_n, err_n, keys, custom, location, 0, keys.len());
}


/// With an accumulating error, the pass for missing fields gathers more and
/// more from one field to the next.
pub proof fn lemma_missing_gathering_grows_from<S: FieldSlots<ErrorList>>(
    slots: S::V,
    err: Option<Seq<DefaultErrorView>>,
    keys: Seq<Seq<char>>,
    custom: Seq<Option<Seq<DefaultErrorView>>>,
    location: Seq<PathStep>,
    m: nat,
    n: nat,
)
    requires
        m <= n <= keys.len(),
    ensures
        is_prefix(
            gathered(continued(missing_pass::<S, ErrorList>(slots, err, keys, custom, location, m))),
            gathered(continued(missing_pass::<S, ErrorList>(slots, err, keys, custom, location, n))),
        ),
    decreases n,
{
    let mp = |k: nat| gathered(continued(missing_pass::<S, ErrorList>(slots, err, keys, custom, location, k)));
    lemma_missing_gathering_grows::<S>(slots, err, keys, custom, location, n);
    if m == n {
        assert(mp(n).subrange(0, mp(n).len() as int) =~= mp(n));
    } else {
        lemma_missing_gathering_grows::<S>(slots, err, keys, custom, location, (n - 1) as nat);
        lemma_missing_gathering_grows_from::<S>(slots, err, keys, custom, location, m, (n - 1) as nat);
        assert(mp(n).subrange(0, mp((n - 1) as nat).len() as int) =~= mp((n - 1) as nat));
        assert(mp(n).subrange(0, mp(m).len() as int) =~= mp((n - 1) as nat).subrange(
            0,
            mp(m).len() as int,
        ));
    }
}

/// Fail-fast and accumulation side by side: two fields that fail on their
/// values alone are both reported by an accumulating error.
pub proof fn lemma_accumulating_reports_both<S: FieldSlots<ErrorList>>(
    entries: Vec<(String, Value)>,
    location: Seq<PathStep>,
    keys: Seq<Seq<char>>,
    custom: Seq<Option<Seq<DefaultErrorView>>>,
    deny_unknown_fields: bool,
    init: S::V,
    a: int,
    b: int,
    failure_a: Seq<DefaultErrorView>,
    failure_b: Seq<DefaultErrorView>,
)
    requires
        0 <= a < b < entries@.len(),
        fails_alone::<S, ErrorList>(entries@, keys, location, a, failure_a),
        fails_alone::<S, ErrorList>(entries@, keys, location, b, failure_b),
    ensures
        spec_named_fields::<S, ErrorList>(
            Value::Object(entries),
            location,
            keys,
            custom,
            deny_unknown_fields,
            init,
        ) matches Err(list) && contains_run(list, failure_a) && contains_run(list, failure_b),
{
    lemma_failure_reported::<S>(entries, location, keys, custom, deny_unknown_fields, init, a, failure_a);
    lemma_failure_reported::<S>(entries, location, keys, custom, deny_unknown_fields, init, b, failure_b);
}

/// With a fail-fast error, the first field that fails ends the read with its
/// own error: the entries after it are never read.
pub proof fn lemma_fail_fast_first_failure<S: FieldSlots<DefaultError>>(
    entries: Vec<(String, Value)>,
    location: Seq<PathStep>,
    keys: Seq<Seq<char>>,
    custom: Seq<Option<DefaultErrorView>>,
    deny_unknown_fields: bool,
    init: S::V,
    a: int,
    failure: DefaultErrorView,
)
    requires
        0 <= a < entries@.len(),
        !holds_error(
            fields_pass::<S, DefaultError>(
                init,
                entries@,
                keys,
                deny_unknown_fields,
                location,
                a as nat,
            ),
        ),
        fails_alone::<S, DefaultError>(entries@, keys, location, a, failure),
    ensures
        spec_named_fields::<S, DefaultError>(
            Value::Object(entries),
            location,
            keys,
            custom,
            deny_unknown_fields,
            init,
        ) == Err::<S::V, DefaultErrorView>(failure),
{
    let es = entries@;
    let (s_a, err_a) = continued(
        fields_pass::<S, DefaultError>(init, es, keys, deny_unknown_fields, location, a as nat),
    );
    let i = key_index(keys, es[a].0@)->Some_0;
    let at = location.push(PathStep::Key(es[a].0@));
    assert(S::spec_fill(s_a, i as nat, es[a].1, at).1 == Some(failure));
    lemma_stop_is_final::<S, DefaultError>(
        entries,
        location,
        keys,
        custom,
        deny_unknown_fields,
        init,
        (a + 1) as nat,
        failure,
    );
}

/// With an accumulating error, a required field whose key is absent, and
/// which declares no error of its own for that, is reported as missing,
/// under its declared key.
pub proof fn lemma_missing_field_reported<S: FieldSlots<ErrorList>>(
    entries: Vec<(String, Value)>,
    location: Seq<PathStep>,
    keys: Seq<Seq<char>>,
    custom: Seq<Option<Seq<DefaultErrorView>>>,
    deny_unknown_fields: bool,
    init: S::V,
    i: nat,
)
    requires
        i < keys.len(),
        forall|j: int| 0 <= j < entries@.len() ==> entries@[j].0@ != keys[i as int],
        S::spec_is_missing(init, i),
        crate::fields::custom_at(custom, i as int) is None,
        fills_keep_others::<S, ErrorList>(i),
    ensures
        spec_named_fields::<S, ErrorList>(
            Value::Object(entries),
            location,
            keys,
            custom,
            deny_unknown_fields,
            init,
        ) matches Err(list) && list.contains(
            DefaultErrorView {
                location,
                content: DefaultErrorContentView::MissingField(keys[i as int]),
            },
        ),
{
    let es = entries@;
    let n = es.len();
    lemma_missing_field_fails::<S, ErrorList>(
        entries,
        location,
        keys,
        custom,
        deny_unknown_fields,
        init,
        i,
    );
    lemma_gathering_grows::<S>(init, es, keys, deny_unknown_fields, location, n, n);
    lemma_absent_key_stays_missing::<S, ErrorList>(
        init,
        es,
        keys,
        deny_unknown_fields,
        location,
        i,
        n,
    );
    let (slots, err) = continued(
        fields_pass::<S, ErrorList>(init, es, keys, deny_unknown_fields, location, n),
    );
    lemma_missing_gathering_grows::<S>(slots, err, keys, custom, location, i);
    lemma_missing_gathering_grows::<S>(slots, err, keys, custom, location, keys.len());
    lemma_missing_gathering_grows_from::<S>(slots, err, keys, custom, location, i + 1, keys.len());
    let mp = |k: nat| gathered(continued(missing_pass::<S, ErrorList>(slots, err, keys, custom, location, k)));
    let wanted = DefaultErrorView {
        location,
        content: DefaultErrorContentView::MissingField(keys[i as int]),
    };
    assert(mp(i + 1) == mp(i).push(wanted));
    let list = mp(keys.len());
    assert(list[mp(i).len() as int] == mp(i + 1)[mp(i).len() as int]);
    assert(list.contains(wanted));
    let fin = missing_pass::<S, ErrorList>(slots, err, keys, custom, location, keys.len());
    assert(fin is Continue);
    let r = spec_named_fields::<S, ErrorList>(
        Value::Object(entries),
        location,
        keys,
        custom,
        deny_unknown_fields,
        init,
    );
    assert(continued(fin) is Some);
    assert(r == Err::<S::V, Seq<DefaultErrorView>>(list));
}

/// With an accumulating error and the refusing policy, a key that no
/// declared field uses is reported, with exactly the declared keys as the
/// accepted ones.
pub proof fn lemma_unknown_key_reported<S: FieldSlots<ErrorList>>(
    entries: Vec<(String, Value)>,
    location: Seq<PathStep>,
    keys: Seq<Seq<char>>,
    custom: Seq<Option<Seq<DefaultErrorView>>>,
    init: S::V,
    j: int,
)
    requires
        0 <= j < entries@.len(),
        key_index(keys, entries@[j].0@) is None,
    ensures
        spec_named_fields::<S, ErrorList>(Value::Object(entries), location, keys, custom, true, init) matches Err(
            list,
        ) && list.contains(
            DefaultErrorView {
                location,
                content: DefaultErrorContentView::UnknownKey { key: entries@[j].0@, accepted: keys },
            },
        ),
{
    let es = entries@;
    let n = es.len();
    lemma_unknown_key_refused::<S, ErrorList>(entries, location, keys, custom, init, j);
    lemma_gathering_grows::<S>(init, es, keys, true, location, j as nat, j as nat);
    lemma_gathering_grows::<S>(init, es, keys, true, location, (j + 1) as nat, n);
    let fp = |k: nat| gathered_in(fields_pass::<S, ErrorList>(init, es, keys, true, location, k));
    let wanted = DefaultErrorView {
        location,
        content: DefaultErrorContentView::UnknownKey { key: es[j].0@, accepted: keys },
    };
    assert(fp((j + 1) as nat) == fp(j as nat).push(wanted));
    let (slots, err) = continued(fields_pass::<S, ErrorList>(init, es, keys, true, location, n));
    lemma_missing_gathering_grows::<S>(slots, err, keys, custom, location, keys.len());
    let list = gathered(continued(missing_pass::<S, ErrorList>(slots, err, keys, custom, location, keys.len())));
    let at = fp(j as nat).len() as int;
    assert(gathered(err).subrange(0, fp((j + 1) as nat).len() as int) == fp((j + 1) as nat));
    assert(list.subrange(0, gathered(err).len() as int) == gathered(err));
    assert(gathered(err)[at] == fp((j + 1) as nat)[at]);
    assert(list[at] == gathered(err)[at]);
    assert(list.contains(wanted));
}


/// A signed integer written as a value: an integer when it is not negative,
/// a negative integer otherwise.
pub open spec fn signed_value(i: i64) -> Value {
    if i >= 0 {
        Value::Integer(i as u64)
    } else {
        Value::NegativeInteger(i)
    }
}

/// Round trip of scalars: a value written in the value model reads back as
/// itself.
pub proof fn lemma_round_trip_scalars<E: DeserializeError>(
    n: u64,
    small: u8,
    i: i64,
    tiny: i8,
    b: bool,
    s: String,
    location: Seq<PathStep>,
)
    ensures
        <u64 as Deserr<E>>::spec_deserialize(Value::Integer(n), location) == Ok::<u64, E::V>(n),
        <u8 as Deserr<E>>::spec_deserialize(Value::Integer(small as u64), location) == Ok::<
            u8,
            E::V,
        >(small),
        <i64 as Deserr<E>>::spec_deserialize(signed_value(i), location) == Ok::<i64, E::V>(i),
        <i8 as Deserr<E>>::spec_deserialize(signed_value(tiny as i64), location) == Ok::<i8, E::V>(
            tiny,
        ),
        <bool as Deserr<E>>::spec_deserialize(Value::Boolean(b), location) == Ok::<bool, E::V>(b),
        <String as Deserr<E>>::spec_deserialize(Value::String(s), location) == Ok::<
            Seq<char>,
            E::V,
        >(s@),
        <() as Deserr<E>>::spec_deserialize(Value::Null, location) == Ok::<(), E::V>(()),
{
}

/// Round trip of sequences: a sequence of values that each read back as an
/// element reads back as the sequence of those elements, in order.
pub proof fn lemma_round_trip_sequence<T: Deserr<E>, E: DeserializeError>(
    items: Vec<Value>,
    xs: Seq<T::V>,
    location: Seq<PathStep>,
)
    requires
        items@.len() == xs.len(),
        forall|i: int|
            0 <= i < xs.len() ==> #[trigger] T::spec_deserialize(
                items@[i],
                location.push(PathStep::Index(i as nat)),
            ) == Ok::<T::V, E::V>(xs[i]),
    ensures
        <Vec<T> as Deserr<E>>::spec_deserialize(Value::Sequence(items), location) == Ok::<
            Seq<T::V>,
            E::V,
        >(xs),
{
    lemma_sequence_pass_clean::<T, E>(items@, xs, location, xs.len());
    assert(xs.subrange(0, xs.len() as int) =~= xs);
}

proof fn lemma_sequence_pass_clean<T: Deserr<E>, E: DeserializeError>(
    items: Seq<Value>,
    xs: Seq<T::V>,
    location: Seq<PathStep>,
    n: nat,
)
    requires
        n <= xs.len() == items.len(),
        forall|i: int|
            0 <= i < xs.len() ==> #[trigger] T::spec_deserialize(
                items[i],
                location.push(PathStep::Index(i as nat)),
            ) == Ok::<T::V, E::V>(xs[i]),
    ensures
        seq_pass::<T, E>(items, location, n) == ControlFlow::<E::V, (Seq<T::V>, Option<E::V>)>::Continue(
            (xs.subrange(0, n as int), None),
        ),
    decreases n,
{
    if n > 0 {
        lemma_sequence_pass_clean::<T, E>(items, xs, location, (n - 1) as nat);
        assert(T::spec_deserialize(items[n - 1], location.push(PathStep::Index((n - 1) as nat)))
            == Ok::<T::V, E::V>(xs[n - 1]));
        assert(xs.subrange(0, n - 1).push(xs[n - 1]) =~= xs.subrange(0, n as int));
    } else {
        assert(xs.subrange(0, 0) =~= Seq::<T::V>::empty());
    }
}

/// Round trip of optional values: null reads back as absent, and a value
/// that reads back as `x` reads back as present `x`.
pub proof fn lemma_round_trip_option<T: Deserr<E>, E: DeserializeError>(
    v: Value,
    x: T::V,
    location: Seq<PathStep>,
)
    requires
        !(v is Null),
        T::spec_deserialize(v, location) == Ok::<T::V, E::V>(x),
    ensures
        <Option<T> as Deserr<E>>::spec_deserialize(Value::Null, location) == Ok::<
            Option<T::V>,
            E::V,
        >(None),
        <Option<T> as Deserr<E>>::spec_deserialize(v, location) == Ok::<Option<T::V>, E::V>(
            Some(x),
        ),
{
}

/// Round trip of internally tagged enums: a map whose tag entry holds the
/// name of a variant reads back as that variant, with the rest of the map
/// for its fields.
pub proof fn lemma_round_trip_tag<E: DeserializeError>(
    entries: Vec<(String, Value)>,
    location: Seq<PathStep>,
    tag: Seq<char>,
    variants: Seq<Seq<char>>,
    j: int,
    i: int,
    name: String,
)
    requires
        0 <= i < variants.len(),
        key_index(variants, variants[i]) == Some(i),
        entry_index(entries@, tag) == Some(j),
        entries@[j].1 == Value::String(name),
        name@ == variants[i],
    ensures
        spec_tag::<E>(Value::Object(entries), location, tag, variants) == Ok::<
            (int, Seq<(String, Value)>),
            E::V,
        >((i, entries@.remove(j))),
{
}

/// Round trip of enums of unit variants: the name of a variant reads back
/// as that variant.
pub proof fn lemma_round_trip_unit_variant<E: DeserializeError>(
    name: String,
    location: Seq<PathStep>,
    variants: Seq<Seq<char>>,
    i: int,
)
    requires
        0 <= i < variants.len(),
        key_index(variants, variants[i]) == Some(i),
        name@ == variants[i],
    ensures
        spec_unit_variant::<E>(Value::String(name), location, variants) == Ok::<int, E::V>(i),
{
}


/// The slots of two fields fill each field on its own, so reading one field
/// never changes whether the other is missing.
pub proof fn lemma_pair_fills_keep_others<A: Deserr<E>, B: Deserr<E>, E: DeserializeError>(i: nat)
    ensures
        fills_keep_others::<(FieldState<A>, FieldState<B>), E>(i),
{
}


/// Round trip of named fields: a map that holds each of two distinct
/// declared keys once, with a value that reads back as its field, and no
/// other key, reads back as those two fields, in whichever order the map
/// yields its entries; a default given for a field is replaced.
pub proof fn lemma_round_trip_two_fields<A: Deserr<E>, B: Deserr<E>, E: DeserializeError>(
    entries: Vec<(String, Value)>,
    location: Seq<PathStep>,
    keys: Seq<Seq<char>>,
    custom: Seq<Option<E::V>>,
    deny_unknown_fields: bool,
    init: (FieldState<A::V>, FieldState<B::V>),
    first: (String, Value),
    second: (String, Value),
    x: A::V,
    y: B::V,
)
    requires
        keys.len() == 2,
        keys[0] != keys[1],
        first.0@ == keys[0],
        second.0@ == keys[1],
        entries@ == seq![first, second] || entries@ == seq![second, first],
        A::spec_deserialize(first.1, location.push(PathStep::Key(keys[0]))) == Ok::<A::V, E::V>(x),
        B::spec_deserialize(second.1, location.push(PathStep::Key(keys[1]))) == Ok::<B::V, E::V>(y),
    ensures
        spec_named_fields::<(FieldState<A>, FieldState<B>), E>(
            Value::Object(entries),
            location,
            keys,
            custom,
            deny_unknown_fields,
            init,
        ) == Ok::<(FieldState<A::V>, FieldState<B::V>), E::V>(
            (FieldState::Present(x), FieldState::Present(y)),
        ),
{
    reveal_with_fuel(key_index_below, 3);
    reveal_with_fuel(fields_pass, 3);
    reveal_with_fuel(missing_pass, 3);
    assert(key_index(keys, keys[0]) == Some(0int));
    assert(key_index(keys, keys[1]) == Some(1int));
}


proof fn lemma_pass_without_entry<S: FieldSlots<E>, E: DeserializeError>(
    init: S::V,
    entries: Seq<(String, Value)>,
    keys: Seq<Seq<char>>,
    location: Seq<PathStep>,
    j: int,
    n: nat,
)
    requires
        0 <= j < entries.len(),
        n <= entries.len(),
        key_index(keys, entries[j].0@) is None,
    ensures
        fields_pass::<S, E>(init, entries, keys, false, location, n) == if n <= j {
            fields_pass::<S, E>(init, entries.remove(j), keys, false, location, n)
        } else {
            fields_pass::<S, E>(init, entries.remove(j), keys, false, location, (n - 1) as nat)
        },
    decreases n,
{
    if n > 0 {
        lemma_pass_without_entry::<S, E>(init, entries, keys, location, j, (n - 1) as nat);
        if n <= j {
            assert(entries.remove(j)[n - 1] == entries[n - 1]);
        } else if n > j + 1 {
            assert(entries.remove(j)[n - 2] == entries[n - 1]);
        }
    }
}

/// Under the permissive policy, a map with an extra key, wherever the map
/// yields it, reads as the same map without it.
pub proof fn lemma_unknown_key_changes_nothing<S: FieldSlots<E>, E: DeserializeError>(
    entries: Vec<(String, Value)>,
    without: Vec<(String, Value)>,
    location: Seq<PathStep>,
    keys: Seq<Seq<char>>,
    custom: Seq<Option<E::V>>,
    init: S::V,
    j: int,
)
    requires
        0 <= j < entries@.len(),
        without@ == entries@.remove(j),
        key_index(keys, entries@[j].0@) is None,
    ensures
        spec_named_fields::<S, E>(Value::Object(entries), location, keys, custom, false, init)
            == spec_named_fields::<S, E>(Value::Object(without), location, keys, custom, false, init),
{
    lemma_pass_without_entry::<S, E>(init, entries@, keys, location, j, entries@.len());
}


/// `T` is read by the field engine: from the declared keys `keys`, with the
/// errors `custom` declared for absent fields, the unknown-key policy, the
/// starting slots `init`, and `build` making the value from the filled slots.
pub open spec fn read_by_fields<T: Deserr<E>, S: FieldSlots<E>, E: DeserializeError>(
    keys: Seq<Seq<char>>,
    custom: Seq<Option<E::V>>,
    deny_unknown_fields: bool,
    init: S::V,
    build: spec_fn(S::V) -> T::V,
) -> bool {
    forall|v: Value, at: Seq<PathStep>|
        #[trigger] T::spec_deserialize(v, at) == match spec_named_fields::<S, E>(
            v,
            at,
            keys,
            custom,
            deny_unknown_fields,
            init,
        ) {
            Ok(slots) => Ok(build(slots)),
            Err(e) => Err(e),
        }
}

/// For a type read by the field engine, `deserialize` fails on a map that
/// lacks the key of a required field; no value is built.
pub proof fn lemma_deserialize_missing_field<T: Deserr<E>, S: FieldSlots<E>, E: DeserializeError>(
    entries: Vec<(String, Value)>,
    keys: Seq<Seq<char>>,
    custom: Seq<Option<E::V>>,
    deny_unknown_fields: bool,
    init: S::V,
    build: spec_fn(S::V) -> T::V,
    i: nat,
)
    requires
        read_by_fields::<T, S, E>(keys, custom, deny_unknown_fields, init, build),
        i < keys.len(),
        forall|j: int| 0 <= j < entries@.len() ==> entries@[j].0@ != keys[i as int],
        S::spec_is_missing(init, i),
        fills_keep_others::<S, E>(i),
    ensures
        T::spec_deserialize(Value::Object(entries), Seq::empty()) is Err,
{
    lemma_missing_field_fails::<S, E>(
        entries,
        Seq::empty(),
        keys,
        custom,
        deny_unknown_fields,
        init,
        i,
    );
    assert(T::spec_deserialize(Value::Object(entries), Seq::empty()) == match spec_named_fields::<
        S,
        E,
    >(Value::Object(entries), Seq::empty(), keys, custom, deny_unknown_fields, init) {
        Ok(slots) => Ok(build(slots)),
        Err(e) => Err(e),
    });
}

/// For a type read by the field engine that refuses unknown keys,
/// `deserialize` fails on a map with a key no declared field uses; with an
/// accumulating error, the failure names that key and exactly the declared
/// keys.
pub proof fn lemma_deserialize_unknown_key_refused<T: Deserr<ErrorList>, S: FieldSlots<ErrorList>>(
    entries: Vec<(String, Value)>,
    keys: Seq<Seq<char>>,
    custom: Seq<Option<Seq<DefaultErrorView>>>,
    init: S::V,
    build: spec_fn(S::V) -> T::V,
    j: int,
)
    requires
        read_by_fields::<T, S, ErrorList>(keys, custom, true, init, build),
        0 <= j < entries@.len(),
        key_index(keys, entries@[j].0@) is None,
    ensures
        T::spec_deserialize(Value::Object(entries), Seq::empty()) matches Err(list) && list.contains(
            DefaultErrorView {
                location: Seq::empty(),
                content: DefaultErrorContentView::UnknownKey { key: entries@[j].0@, accepted: keys },
            },
        ),
{
    lemma_unknown_key_reported::<S>(entries, Seq::empty(), keys, custom, init, j);
    assert(T::spec_deserialize(Value::Object(entries), Seq::empty()) == match spec_named_fields::<
        S,
        ErrorList,
    >(Value::Object(entries), Seq::empty(), keys, custom, true, init) {
        Ok(slots) => Ok(build(slots)),
        Err(e) => Err(e),
    });
}

/// For a type read by the field engine that ignores unknown keys,
/// `deserialize` reads a map with an extra key as the map without it.
pub proof fn lemma_deserialize_unknown_key_ignored<T: Deserr<E>, S: FieldSlots<E>, E: DeserializeError>(
    entries: Vec<(String, Value)>,
    without: Vec<(String, Value)>,
    keys: Seq<Seq<char>>,
    custom: Seq<Option<E::V>>,
    init: S::V,
    build: spec_fn(S::V) -> T::V,
    j: int,
)
    requires
        read_by_fields::<T, S, E>(keys, custom, false, init, build),
        0 <= j < entries@.len(),
        without@ == entries@.remove(j),
        key_index(keys, entries@[j].0@) is None,
    ensures
        T::spec_deserialize(Value::Object(entries), Seq::empty()) == T::spec_deserialize(
            Value::Object(without),
            Seq::empty(),
        ),
{
    lemma_unknown_key_changes_nothing::<S, E>(entries, without, Seq::empty(), keys, custom, init, j);
    assert(T::spec_deserialize(Value::Object(entries), Seq::empty()) == match spec_named_fields::<
        S,
        E,
    >(Value::Object(entries), Seq::empty(), keys, custom, false, init) {
        Ok(slots) => Ok(build(slots)),
        Err(e) => Err(e),
    });
    assert(T::spec_deserialize(Value::Object(without), Seq::empty()) == match spec_named_fields::<
        S,
        E,
    >(Value::Object(without), Seq::empty(), keys, custom, false, init) {
        Ok(slots) => Ok(build(slots)),
        Err(e) => Err(e),
    });
}

/// For a type read by the field engine and a fail-fast error, `deserialize`
/// ends with the error of the first field that fails.
pub proof fn lemma_deserialize_fail_fast<T: Deserr<DefaultError>, S: FieldSlots<DefaultError>>(
    entries: Vec<(String, Value)>,
    keys: Seq<Seq<char>>,
    custom: Seq<Option<DefaultErrorView>>,
    deny_unknown_fields: bool,
    init: S::V,
    build: spec_fn(S::V) -> T::V,
    a: int,
    failure: DefaultErrorView,
)
    requires
        read_by_fields::<T, S, DefaultError>(keys, custom, deny_unknown_fields, init, build),
        0 <= a < entries@.len(),
        !holds_error(
            fields_pass::<S, DefaultError>(
                init,
                entries@,
                keys,
                deny_unknown_fields,
                Seq::empty(),
                a as nat,
            ),
        ),
        fails_alone::<S, DefaultError>(entries@, keys, Seq::empty(), a, failure),
    ensures
        T::spec_deserialize(Value::Object(entries), Seq::empty()) == Err::<T::V, DefaultErrorView>(
            failure,
        ),
{
    lemma_fail_fast_first_failure::<S>(
        entries,
        Seq::empty(),
        keys,
        custom,
        deny_unknown_fields,
        init,
        a,
        failure,
    );
    assert(T::spec_deserialize(Value::Object(entries), Seq::empty()) == match spec_named_fields::<
        S,
        DefaultError,
    >(Value::Object(entries), Seq::empty(), keys, custom, deny_unknown_fields, init) {
        Ok(slots) => Ok(build(slots)),
        Err(e) => Err(e),
    });
}

/// For a type read by the field engine and an accumulating error,
/// `deserialize` reports both of two fields that fail on their values.
pub proof fn lemma_deserialize_accumulates<T: Deserr<ErrorList>, S: FieldSlots<ErrorList>>(
    entries: Vec<(String, Value)>,
    keys: Seq<Seq<char>>,
    custom: Seq<Option<Seq<DefaultErrorView>>>,
    deny_unknown_fields: bool,
    init: S::V,
    build: spec_fn(S::V) -> T::V,
    a: int,
    b: int,
    failure_a: Seq<DefaultErrorView>,
    failure_b: Seq<DefaultErrorView>,
)
    requires
        read_by_fields::<T, S, ErrorList>(keys, custom, deny_unknown_fields, init, build),
        0 <= a < b < entries@.len(),
        fails_alone::<S, ErrorList>(entries@, keys, Seq::empty(), a, failure_a),
        fails_alone::<S, ErrorList>(entries@, keys, Seq::empty(), b, failure_b),
    ensures
        T::spec_deserialize(Value::Object(entries), Seq::empty()) matches Err(list) && contains_run(
            list,
            failure_a,
        ) && contains_run(list, failure_b),
{
    lemma_accumulating_reports_both::<S>(
        entries,
        Seq::empty(),
        keys,
        custom,
        deny_unknown_fields,
        init,
        a,
        b,
        failure_a,
        failure_b,
    );
    assert(T::spec_deserialize(Value::Object(entries), Seq::empty()) == match spec_named_fields::<
        S,
        ErrorList,
    >(Value::Object(entries), Seq::empty(), keys, custom, deny_unknown_fields, init) {
        Ok(slots) => Ok(build(slots)),
        Err(e) => Err(e),
    });
}

/// For a type read by the field engine over two fields, `deserialize` reads
/// back a map that holds both fields' values, in either order, as the value
/// built from them; a default is replaced.
pub proof fn lemma_deserialize_round_trip_two_fields<
    T: Deserr<E>,
    A: Deserr<E>,
    B: Deserr<E>,
    E: DeserializeError,
>(
    entries: Vec<(String, Value)>,
    keys: Seq<Seq<char>>,
    custom: Seq<Option<E::V>>,
    deny_unknown_fields: bool,
    init: (FieldState<A::V>, FieldState<B::V>),
    build: spec_fn((FieldState<A::V>, FieldState<B::V>)) -> T::V,
    first: (String, Value),
    second: (String, Value),
    x: A::V,
    y: B::V,
)
    requires
        read_by_fields::<T, (FieldState<A>, FieldState<B>), E>(
            keys,
            custom,
            deny_unknown_fields,
            init,
            build,
        ),
        keys.len() == 2,
        keys[0] != keys[1],
        first.0@ == keys[0],
        second.0@ == keys[1],
        entries@ == seq![first, second] || entries@ == seq![second, first],
        A::spec_deserialize(first.1, seq![PathStep::Key(keys[0])]) == Ok::<A::V, E::V>(x),
        B::spec_deserialize(second.1, seq![PathStep::Key(keys[1])]) == Ok::<B::V, E::V>(y),
    ensures
        T::spec_deserialize(Value::Object(entries), Seq::empty()) == Ok::<T::V, E::V>(
            build((FieldState::Present(x), FieldState::Present(y))),
        ),
{
    assert(Seq::<PathStep>::empty().push(PathStep::Key(keys[0])) =~= seq![PathStep::Key(keys[0])]);
    assert(Seq::<PathStep>::empty().push(PathStep::Key(keys[1])) =~= seq![PathStep::Key(keys[1])]);
    lemma_round_trip_two_fields::<A, B, E>(
        entries,
        Seq::empty(),
        keys,
        custom,
        deny_unknown_fields,
        init,
        first,
        second,
        x,
        y,
    );
    assert(T::spec_deserialize(Value::Object(entries), Seq::empty()) == match spec_named_fields::<
        (FieldState<A>, FieldState<B>),
        E,
    >(Value::Object(entries), Seq::empty(), keys, custom, deny_unknown_fields, init) {
        Ok(slots) => Ok(build(slots)),
        Err(e) => Err(e),
    });
}


proof fn lemma_no_missing_before<S: FieldSlots<DefaultError>>(
    slots: S::V,
    keys: Seq<Seq<char>>,
    custom: Seq<Option<DefaultErrorView>>,
    location: Seq<PathStep>,
    i: nat,
)
    requires
        forall|j: nat| j < i ==> !S::spec_is_missing(slots, j),
    ensures
        missing_pass::<S, DefaultError>(slots, None, keys, custom, location, i)
            == ControlFlow::<DefaultErrorView, Option<DefaultErrorView>>::Continue(None),
    decreases i,
{
    if i > 0 {
        lemma_no_missing_before::<S>(slots, keys, custom, location, (i - 1) as nat);
    }
}

/// For a type read by the field engine and the fail-fast `DefaultError`: when
/// every key present is read without error and every declared field before
/// field `i` is filled, but the key of the required field `i` is absent,
/// `deserialize` fails with exactly a missing-field error under that key, at
/// the root.
pub proof fn lemma_deserialize_missing_field_fail_fast<
    T: Deserr<DefaultError>,
    S: FieldSlots<DefaultError>,
>(
    entries: Vec<(String, Value)>,
    keys: Seq<Seq<char>>,
    custom: Seq<Option<DefaultErrorView>>,
    deny_unknown_fields: bool,
    init: S::V,
    build: spec_fn(S::V) -> T::V,
    slots: S::V,
    i: nat,
)
    requires
        read_by_fields::<T, S, DefaultError>(keys, custom, deny_unknown_fields, init, build),
        fields_pass::<S, DefaultError>(
            init,
            entries@,
            keys,
            deny_unknown_fields,
            Seq::empty(),
            entries@.len(),
        ) == ControlFlow::<DefaultErrorView, (S::V, Option<DefaultErrorView>)>::Continue(
            (slots, None),
        ),
        i < keys.len(),
        forall|j: nat| j < i ==> !S::spec_is_missing(slots, j),
        forall|j: int| 0 <= j < entries@.len() ==> entries@[j].0@ != keys[i as int],
        S::spec_is_missing(init, i),
        fills_keep_others::<S, DefaultError>(i),
        crate::fields::custom_at(custom, i as int) is None,
    ensures
        T::spec_deserialize(Value::Object(entries), Seq::empty()) == Err::<T::V, DefaultErrorView>(
            DefaultErrorView {
                location: Seq::empty(),
                content: DefaultErrorContentView::MissingField(keys[i as int]),
            },
        ),
{
    lemma_absent_key_stays_missing::<S, DefaultError>(
        init,
        entries@,
        keys,
        deny_unknown_fields,
        Seq::empty(),
        i,
        entries@.len(),
    );
    lemma_no_missing_before::<S>(slots, keys, custom, Seq::empty(), i);
    crate::fields::lemma_missing_pass_stays_stopped::<S, DefaultError>(
        slots,
        None,
        keys,
        custom,
        Seq::empty(),
        i + 1,
        keys.len(),
    );
    assert(T::spec_deserialize(Value::Object(entries), Seq::empty()) == match spec_named_fields::<
        S,
        DefaultError,
    >(Value::Object(entries), Seq::empty(), keys, custom, deny_unknown_fields, init) {
        Ok(s) => Ok(build(s)),
        Err(e) => Err(e),
    });
}

/// For a type read by the field engine that refuses unknown keys, and the
/// fail-fast `DefaultError`: when the entries before an unknown key raise no
/// error, `deserialize` fails with exactly an unknown-key error naming that
/// key and the declared keys, at the root.
pub proof fn lemma_deserialize_unknown_key_fail_fast<
    T: Deserr<DefaultError>,
    S: FieldSlots<DefaultError>,
>(
    entries: Vec<(String, Value)>,
    keys: Seq<Seq<char>>,
    custom: Seq<Option<DefaultErrorView>>,
    init: S::V,
    build: spec_fn(S::V) -> T::V,
    j: int,
)
    requires
        read_by_fields::<T, S, DefaultError>(keys, custom, true, init, build),
        0 <= j < entries@.len(),
        key_index(keys, entries@[j].0@) is None,
        !holds_error(
            fields_pass::<S, DefaultError>(init, entries@, keys, true, Seq::empty(), j as nat),
        ),
    ensures
        T::spec_deserialize(Value::Object(entries), Seq::empty()) == Err::<T::V, DefaultErrorView>(
            DefaultErrorView {
                location: Seq::empty(),
                content: DefaultErrorContentView::UnknownKey { key: entries@[j].0@, accepted: keys },
            },
        ),
{
    let wanted = DefaultErrorView {
        location: Seq::empty(),
        content: DefaultErrorContentView::UnknownKey { key: entries@[j].0@, accepted: keys },
    };
    assert(fields_pass::<S, DefaultError>(init, entries@, keys, true, Seq::empty(), (j + 1) as nat)
        == ControlFlow::<DefaultErrorView, (S::V, Option<DefaultErrorView>)>::Break(wanted));
    lemma_stop_is_final::<S, DefaultError>(
        entries,
        Seq::empty(),
        keys,
        custom,
        true,
        init,
        (j + 1) as nat,
        wanted,
    );
    assert(T::spec_deserialize(Value::Object(entries), Seq::empty()) == match spec_named_fields::<
        S,
        DefaultError,
    >(Value::Object(entries), Seq::empty(), keys, custom, true, init) {
        Ok(s) => Ok(build(s)),
        Err(e) => Err(e),
    });
}

} // verus!
