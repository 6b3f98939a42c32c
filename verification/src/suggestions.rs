//! Suggestions for misspelt names.

use vstd::prelude::*;
use vstd::utf8;

verus! {

pub open spec fn least(a: int, b: int) -> int {
    if a <= b {
        a
    } else {
        b
    }
}

/// How many bytes must be added, removed or replaced to make one text from another.
pub open spec fn distance(a: Seq<u8>, b: Seq<u8>) -> int
    decreases a.len() + b.len(),
{
    if a.len() == 0 {
        b.len() as int
    } else if b.len() == 0 {
        a.len() as int
    } else {
        let replaced = distance(a.drop_last(), b.drop_last()) + if a.last() == b.last() {
            0int
        } else {
            1
        };
        least(least(distance(a.drop_last(), b) + 1, distance(a, b.drop_last()) + 1), replaced)
    }
}

/// No distance is larger than the longer text.
pub proof fn distance_is_bounded(a: Seq<u8>, b: Seq<u8>)
    ensures
        0 <= distance(a, b),
        distance(a, b) <= a.len() || distance(a, b) <= b.len(),
    decreases a.len() + b.len(),
{
    if a.len() > 0 && b.len() > 0 {
        distance_is_bounded(a.drop_last(), b);
        distance_is_bounded(a, b.drop_last());
        distance_is_bounded(a.drop_last(), b.drop_last());
    }
}

/// A text is as far from another as that one is from it.
pub proof fn distance_is_symmetric(a: Seq<u8>, b: Seq<u8>)
    ensures
        distance(a, b) == distance(b, a),
    decreases a.len() + b.len(),
{
    if a.len() > 0 && b.len() > 0 {
        distance_is_symmetric(a.drop_last(), b);
        distance_is_symmetric(a, b.drop_last());
        distance_is_symmetric(a.drop_last(), b.drop_last());
    }
}

proof fn distance_step(a: Seq<u8>, b: Seq<u8>, i: int, j: int)
    requires
        0 <= i < a.len(),
        0 <= j < b.len(),
    ensures
        distance(a.take(i + 1), b.take(j + 1)) == least(
            least(
                distance(a.take(i), b.take(j + 1)) + 1,
                distance(a.take(i + 1), b.take(j)) + 1,
            ),
            distance(a.take(i), b.take(j)) + if a[i] == b[j] {
                0int
            } else {
                1
            },
        ),
        0 <= distance(a.take(i + 1), b.take(j + 1)),
        distance(a.take(i + 1), b.take(j + 1)) <= a.len() || distance(
            a.take(i + 1),
            b.take(j + 1),
        ) <= b.len(),
{
    assert(a.take(i + 1).drop_last() =~= a.take(i));
    assert(b.take(j + 1).drop_last() =~= b.take(j));
    distance_is_bounded(a.take(i + 1), b.take(j + 1));
    distance_is_bounded(a.take(i), b.take(j + 1));
    distance_is_bounded(a.take(i + 1), b.take(j));
    distance_is_bounded(a.take(i), b.take(j));
}

fn smaller(a: usize, b: usize) -> (r: usize)
    ensures
        r == least(a as int, b as int),
{
    if a <= b {
        a
    } else {
        b
    }
}

/// The least of three sums that is known to fit.
fn cheapest(removed: usize, added: usize, replaced: usize, differ: bool) -> (r: usize)
    requires
        least(
            least(removed + 1, added + 1),
            replaced + if differ {
                1int
            } else {
                0
            },
        ) <= usize::MAX,
    ensures
        r == least(
            least(removed + 1, added + 1),
            replaced + if differ {
                1int
            } else {
                0
            },
        ),
{
    let change: usize = if differ { 1 } else { 0 };
    smaller(
        smaller(removed.saturating_add(1), added.saturating_add(1)),
        replaced.saturating_add(change),
    )
}

/// How many bytes must be added, removed or replaced to make one text from another.
pub fn edit_distance(left: &str, right: &str) -> (r: usize)
    ensures
        r == distance(utf8::encode_utf8(left@), utf8::encode_utf8(right@)),
{
    let a: &[u8] = left.as_bytes();
    let b: &[u8] = right.as_bytes();
    let mut row: Vec<usize> = Vec::new();
    let mut k: usize = 0;
    while k < b.len()
        invariant
            k <= b@.len(),
            row@.len() == k,
            forall|j: int| 0 <= j < k ==> row@[j] == j,
        decreases b@.len() - k,
    {
        row.push(k);
        k = k + 1;
    }
    row.push(k);
    let mut i: usize = 0;
    while i < a.len()
        invariant
            i <= a@.len(),
            row@.len() == b@.len() + 1,
            forall|j: int|
                0 <= j <= b@.len() ==> row@[j] == distance(a@.take(i as int), b@.take(j)),
        decreases a@.len() - i,
    {
        assert(b@.take(0) =~= Seq::<u8>::empty());
        let mut previous: usize = row[0];
        row.set(0, i + 1);
        let mut j: usize = 0;
        while j < b.len()
            invariant
                i < a@.len(),
                j <= b@.len(),
                row@.len() == b@.len() + 1,
                previous == distance(a@.take(i as int), b@.take(j as int)),
                forall|k: int|
                    0 <= k <= j ==> row@[k] == distance(a@.take(i + 1), b@.take(k)),
                forall|k: int|
                    j < k <= b@.len() ==> row@[k] == distance(a@.take(i as int), b@.take(k)),
            decreases b@.len() - j,
        {
            let old: usize = row[j + 1];
            proof {
                distance_step(a@, b@, i as int, j as int);
            }
            let next: usize = cheapest(old, row[j], previous, a[i] != b[j]);
            row.set(j + 1, next);
            previous = old;
            j = j + 1;
        }
        i = i + 1;
    }
    assert(a@.take(i as int) =~= a@);
    assert(b@.take(b@.len() as int) =~= b@);
    row[b.len()]
}

/// The candidate that is nearest to a name, the first of those that are.
pub open spec fn nearest(name: Seq<char>, candidates: Seq<Seq<char>>) -> Option<Seq<char>>
    decreases candidates.len(),
{
    if candidates.len() == 0 {
        None
    } else {
        let last = candidates.last();
        match nearest(name, candidates.drop_last()) {
            None => Some(last),
            Some(best) => if distance(utf8::encode_utf8(name), utf8::encode_utf8(last)) < distance(
                utf8::encode_utf8(name),
                utf8::encode_utf8(best),
            ) {
                Some(last)
            } else {
                Some(best)
            },
        }
    }
}

/// What is said of a name that is none of the candidates. One that differs little from it is
/// suggested.
pub open spec fn unknown_name(kind: Seq<char>, name: Seq<char>, candidates: Seq<Seq<char>>) -> Seq<
    char,
> {
    "unknown "@ + kind + " `"@ + name + "`"@ + match nearest(name, candidates) {
        Some(best) => if distance(utf8::encode_utf8(name), utf8::encode_utf8(best)) <= 3 {
            "; did you mean `"@ + best + "`?"@
        } else {
            Seq::empty()
        },
        None => Seq::empty(),
    }
}

/// The texts of a list.
pub open spec fn texts(list: Seq<&str>) -> Seq<Seq<char>> {
    Seq::new(list.len(), |i: int| list[i]@)
}

/// What is said of a name that is none of the candidates.
pub fn unknown(kind: &str, name: &str, candidates: &[&str]) -> (r: String)
    ensures
        r@ == unknown_name(kind@, name@, texts(candidates@)),
{
    let ghost all = texts(candidates@);
    let mut best: Option<usize> = None;
    let mut shortest: usize = 0;
    let mut i: usize = 0;
    while i < candidates.len()
        invariant
            i <= candidates@.len(),
            all == texts(candidates@),
            match best {
                Some(b) => b < i && nearest(name@, all.take(i as int)) == Some(all[b as int])
                    && shortest == distance(utf8::encode_utf8(name@), utf8::encode_utf8(all[b as int])),
                None => i == 0 && nearest(name@, all.take(i as int)) is None,
            },
        decreases candidates@.len() - i,
    {
        proof {
            assert(all.take(i + 1).drop_last() =~= all.take(i as int));
            assert(all.take(i + 1).last() == candidates@[i as int]@);
        }
        let far: usize = edit_distance(name, candidates[i]);
        match best {
            None => {
                best = Some(i);
                shortest = far;
            },
            Some(_) => {
                if far < shortest {
                    best = Some(i);
                    shortest = far;
                }
            },
        }
        i = i + 1;
    }
    assert(all.take(i as int) =~= all);
    let mut message: String = "unknown ".to_owned();
    message.append(kind);
    message.append(" `");
    message.append(name);
    message.append("`");
    let ghost start = message@;
    match best {
        Some(b) => {
            if shortest <= 3 {
                message.append("; did you mean `");
                message.append(candidates[b]);
                message.append("`?");
                assert(message@ =~= start + ("; did you mean `"@ + all[b as int] + "`?"@));
            } else {
                assert(message@ =~= start + Seq::<char>::empty());
            }
        },
        None => {
            assert(message@ =~= start + Seq::<char>::empty());
        },
    }
    message
}

} // verus!
