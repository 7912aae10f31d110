use crate::strings_view;
use vstd::prelude::*;
use vstd::string::{StrSliceExecFns, StringExecFns};

verus! {

/// The Damerau-Levenshtein distance between two strings, as strsim computes
/// it.
pub uninterp spec fn edit_distance_of(a: Seq<char>, b: Seq<char>) -> nat;

/// Relies on `strsim::damerau_levenshtein`: the distance depends on the
/// characters of the two strings alone, and from an empty string it is the
/// length of the other. Its table has `(|a| + 2) * (|b| + 2)` cells, whose
/// count must not overflow.
#[verifier::external_body]
fn edit_distance(a: &str, b: &str) -> (r: usize)
    requires
        (a@.len() + 2) * (b@.len() + 2) <= usize::MAX,
    ensures
        r == edit_distance_of(a@, b@),
        a@.len() == 0 ==> r == b@.len(),
        b@.len() == 0 ==> r == a@.len(),
{
    strsim::damerau_levenshtein(a, b)
}

/// How many typos a received string of `n` characters may hold and still
/// get a suggestion; none for three characters or fewer.
pub open spec fn typo_budget(n: nat) -> Option<nat> {
    if n <= 3 {
        None
    } else if n <= 7 {
        Some(1)
    } else if n <= 12 {
        Some(2)
    } else if n <= 17 {
        Some(3)
    } else if n <= 24 {
        Some(4)
    } else {
        Some(5)
    }
}

/// Among the first `n` distances, the first index of the smallest one that
/// is at most `allowed`.
pub open spec fn closest_below(distances: Seq<usize>, allowed: nat, n: nat) -> Option<int>
    decreases n,
{
    if n == 0 {
        None
    } else {
        let prev = closest_below(distances, allowed, (n - 1) as nat);
        let d = distances[n - 1];
        if d > allowed {
            prev
        } else {
            match prev {
                None => Some(n - 1),
                Some(j) => if d < distances[j] {
                    Some(n - 1)
                } else {
                    prev
                },
            }
        }
    }
}

/// The index of the first smallest distance that is at most `allowed`.
pub fn closest_within(distances: &Vec<usize>, allowed: usize) -> (r: Option<usize>)
    ensures
        match r {
            Some(j) => closest_below(distances@, allowed as nat, distances@.len()) == Some(j as int)
                && j < distances.len(),
            None => closest_below(distances@, allowed as nat, distances@.len()) is None,
        },
{
    let mut best: Option<usize> = None;
    let mut i: usize = 0;
    while i < distances.len()
        invariant
            i <= distances.len(),
            match best {
                Some(j) => closest_below(distances@, allowed as nat, i as nat) == Some(j as int)
                    && j < i,
                None => closest_below(distances@, allowed as nat, i as nat) is None,
            },
        decreases distances.len() - i,
    {
        let d = distances[i];
        if d <= allowed {
            match best {
                None => {
                    best = Some(i);
                },
                Some(j) => {
                    if d < distances[j] {
                        best = Some(i);
                    }
                },
            }
        }
        i = i + 1;
    }
    best
}

/// Whether strsim's table for strings of these lengths fits in memory
/// addresses.
pub open spec fn table_fits(a: nat, b: nat) -> bool {
    (a + 2) * (b + 2) <= usize::MAX
}

/// The distance from `received` to each accepted string; one whose table
/// would not fit counts as beyond every budget.
pub open spec fn distances_to(received: Seq<char>, accepted: Seq<Seq<char>>) -> Seq<usize> {
    Seq::new(
        accepted.len(),
        |i: int|
            if table_fits(received.len(), accepted[i].len()) {
                edit_distance_of(received, accepted[i]) as usize
            } else {
                6
            },
    )
}

/// The suggestion for `received` among `accepted`: the closest accepted
/// string within the typo budget, or nothing.
pub open spec fn suggestion(received: Seq<char>, accepted: Seq<Seq<char>>) -> Seq<char> {
    match typo_budget(received.len()) {
        None => Seq::empty(),
        Some(allowed) => match closest_below(
            distances_to(received, accepted),
            allowed,
            accepted.len(),
        ) {
            None => Seq::empty(),
            Some(j) => "did you mean `"@ + accepted[j] + "`? "@,
        },
    }
}

fn typo_allowance(n: usize) -> (r: Option<usize>)
    ensures
        match r {
            Some(a) => typo_budget(n as nat) == Some(a as nat),
            None => typo_budget(n as nat) is None,
        },
{
    if n <= 3 {
        None
    } else if n <= 7 {
        Some(1)
    } else if n <= 12 {
        Some(2)
    } else if n <= 17 {
        Some(3)
    } else if n <= 24 {
        Some(4)
    } else {
        Some(5)
    }
}

/// A "did you mean" hint for `received` among `accepted`, or an empty string
/// when no accepted string is close enough.
pub fn did_you_mean(received: &str, accepted: &Vec<String>) -> (r: String)
    ensures
        r@ == suggestion(received@, strings_view(accepted@)),
{
    let ghost acc = strings_view(accepted@);
    let n = received.unicode_len();
    let allowed = match typo_allowance(n) {
        None => {
            return String::new();
        },
        Some(a) => a,
    };
    let mut distances: Vec<usize> = Vec::new();
    let mut i: usize = 0;
    while i < accepted.len()
        invariant
            i <= accepted.len(),
            acc == strings_view(accepted@),
            n == received@.len(),
            distances.len() == i,
            forall|j: int| 0 <= j < i ==> distances@[j] == distances_to(received@, acc)[j],
        decreases accepted.len() - i,
    {
        let m = accepted[i].as_str().unicode_len();
        let fits = match (n.checked_add(2), m.checked_add(2)) {
            (Some(a), Some(b)) => match a.checked_mul(b) {
                Some(_) => true,
                None => false,
            },
            _ => false,
        };
        assert(acc[i as int] == accepted@[i as int]@);
        proof {
            let x = n as int + 2;
            let y = m as int + 2;
            assert(x > usize::MAX ==> x * y > usize::MAX) by (nonlinear_arith)
                requires
                    y >= 2,
            ;
            assert(y > usize::MAX ==> x * y > usize::MAX) by (nonlinear_arith)
                requires
                    x >= 2,
            ;
        }
        assert(fits == table_fits(received@.len(), acc[i as int].len()));
        let d = if fits {
            edit_distance(received, accepted[i].as_str())
        } else {
            6
        };
        distances.push(d);
        assert(distances@[i as int] == distances_to(received@, acc)[i as int]);
        i = i + 1;
    }
    assert(distances@ =~= distances_to(received@, acc));
    match closest_within(&distances, allowed) {
        None => String::new(),
        Some(j) => {
            let mut s = String::from_str("did you mean `");
            s.append(accepted[j].as_str());
            s.append("`? ");
            assert(acc[j as int] == accepted@[j as int]@);
            s
        },
    }
}

} // verus!
