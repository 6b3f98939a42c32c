//! Distances between texts are lengths of edit scripts: there is a script as short as the distance,
//! and none is shorter.

use crate::suggestions;
use vstd::prelude::*;

verus! {

/// Whether one text comes from another by adding, removing or replacing one byte.
pub open spec fn one_edit(a: Seq<u8>, b: Seq<u8>) -> bool {
    exists|i: int, x: u8| edited(a, b, i, x)
}

/// Whether one text comes from another by adding a byte at a place, removing the one there, or
/// replacing it.
pub open spec fn edited(a: Seq<u8>, b: Seq<u8>, i: int, x: u8) -> bool {
    ||| 0 <= i <= a.len() && b == a.insert(i, x)
    ||| 0 <= i <= b.len() && a == b.insert(i, x)
    ||| 0 <= i < a.len() && b == a.update(i, x)
}

/// Whether texts lead from one to another, each by one edit to the next.
pub open spec fn script(texts: Seq<Seq<u8>>, a: Seq<u8>, b: Seq<u8>) -> bool {
    &&& texts.len() >= 1
    &&& texts[0] == a
    &&& texts.last() == b
    &&& forall|i: int| 0 <= i < texts.len() - 1 ==> one_edit(#[trigger] texts[i], texts[i + 1])
}

proof fn longer_by_one(a: Seq<u8>, c: Seq<u8>, x: u8)
    ensures
        suggestions::distance(a.push(x), c) <= suggestions::distance(a, c) + 1,
        suggestions::distance(a, c.push(x)) <= suggestions::distance(a, c) + 1,
{
    assert(a.push(x).drop_last() =~= a);
    assert(c.push(x).drop_last() =~= c);
    suggestions::distance_is_bounded(a, c);
    if a.len() == 0 {
        suggestions::distance_is_bounded(a.push(x), c);
    }
    if c.len() == 0 {
        assert(suggestions::distance(a, c) == a.len());
    }
}

proof fn shorter_by_one(a: Seq<u8>, c: Seq<u8>, x: u8)
    ensures
        suggestions::distance(a, c) <= suggestions::distance(a.push(x), c) + 1,
    decreases c.len(),
{
    assert(a.push(x).drop_last() =~= a);
    if c.len() > 0 {
        let rest = c.drop_last();
        assert(rest.push(c.last()) =~= c);
        shorter_by_one(a, rest, x);
        longer_by_one(a, rest, c.last());
    } else {
        assert(suggestions::distance(a, c) == a.len());
    }
}

proof fn inserting_moves_by_one(a: Seq<u8>, c: Seq<u8>, i: int, x: u8)
    requires
        0 <= i <= a.len(),
    ensures
        suggestions::distance(a.insert(i, x), c) <= suggestions::distance(a, c) + 1,
        suggestions::distance(a, c) <= suggestions::distance(a.insert(i, x), c) + 1,
    decreases a.len() + c.len(),
{
    let more = a.insert(i, x);
    if i == a.len() {
        assert(more =~= a.push(x));
        longer_by_one(a, c, x);
        shorter_by_one(a, c, x);
    } else if c.len() > 0 {
        let (start, rest) = (a.drop_last(), c.drop_last());
        assert(more.drop_last() =~= start.insert(i, x));
        assert(more.last() == a.last());
        inserting_moves_by_one(start, c, i, x);
        inserting_moves_by_one(a, rest, i, x);
        inserting_moves_by_one(start, rest, i, x);
    } else {
        assert(suggestions::distance(a, c) == a.len());
        assert(suggestions::distance(more, c) == more.len());
    }
}

proof fn replacing_moves_by_one(a: Seq<u8>, c: Seq<u8>, i: int, x: u8)
    requires
        0 <= i < a.len(),
    ensures
        suggestions::distance(a.update(i, x), c) <= suggestions::distance(a, c) + 1,
        suggestions::distance(a, c) <= suggestions::distance(a.update(i, x), c) + 1,
    decreases a.len() + c.len(),
{
    let other = a.update(i, x);
    if c.len() > 0 {
        let (start, rest) = (a.drop_last(), c.drop_last());
        replacing_moves_by_one(a, rest, i, x);
        if i == a.len() - 1 {
            assert(other.drop_last() =~= start);
        } else {
            assert(other.drop_last() =~= start.update(i, x));
            assert(other.last() == a.last());
            replacing_moves_by_one(start, c, i, x);
            replacing_moves_by_one(start, rest, i, x);
        }
    } else {
        assert(suggestions::distance(a, c) == a.len());
        assert(suggestions::distance(other, c) == other.len());
    }
}

proof fn edits_move_by_one(a: Seq<u8>, b: Seq<u8>, c: Seq<u8>)
    requires
        one_edit(a, b),
    ensures
        suggestions::distance(a, c) <= suggestions::distance(b, c) + 1,
{
    let (i, x) = choose|i: int, x: u8| edited(a, b, i, x);
    if 0 <= i <= a.len() && b == a.insert(i, x) {
        inserting_moves_by_one(a, c, i, x);
    } else if 0 <= i <= b.len() && a == b.insert(i, x) {
        inserting_moves_by_one(b, c, i, x);
    } else {
        replacing_moves_by_one(a, c, i, x);
    }
}

proof fn no_way_to_itself(a: Seq<u8>)
    ensures
        suggestions::distance(a, a) == 0,
    decreases a.len(),
{
    suggestions::distance_is_bounded(a, a);
    if a.len() > 0 {
        no_way_to_itself(a.drop_last());
    }
}

/// No script that leads from one text to another has fewer edits than the distance says.
pub proof fn no_script_is_shorter(texts: Seq<Seq<u8>>, a: Seq<u8>, b: Seq<u8>)
    requires
        script(texts, a, b),
    ensures
        suggestions::distance(a, b) <= texts.len() - 1,
    decreases texts.len(),
{
    if texts.len() == 1 {
        no_way_to_itself(a);
    } else {
        let rest = texts.drop_first();
        assert(one_edit(texts[0], texts[1]));
        assert forall|i: int| 0 <= i < rest.len() - 1 implies one_edit(
            #[trigger] rest[i],
            rest[i + 1],
        ) by {
            assert(one_edit(texts[i + 1], texts[i + 2]));
        }
        no_script_is_shorter(rest, texts[1], b);
        edits_move_by_one(a, texts[1], b);
    }
}

proof fn edits_in_front(a: Seq<u8>, b: Seq<u8>, last: u8)
    requires
        one_edit(a, b),
    ensures
        one_edit(a.push(last), b.push(last)),
{
    let (i, x) = choose|i: int, x: u8| edited(a, b, i, x);
    let (p, q) = (a.push(last), b.push(last));
    if 0 <= i <= a.len() && b == a.insert(i, x) {
        assert(q =~= p.insert(i, x));
    } else if 0 <= i <= b.len() && a == b.insert(i, x) {
        assert(p =~= q.insert(i, x));
    } else {
        assert(q =~= p.update(i, x));
    }
    assert(edited(p, q, i, x));
}

proof fn script_with_last(texts: Seq<Seq<u8>>, a: Seq<u8>, b: Seq<u8>, last: u8) -> (r: Seq<Seq<u8>>)
    requires
        script(texts, a, b),
    ensures
        script(r, a.push(last), b.push(last)),
        r.len() == texts.len(),
{
    let r = Seq::new(texts.len(), |i: int| texts[i].push(last));
    assert forall|i: int| 0 <= i < r.len() - 1 implies one_edit(#[trigger] r[i], r[i + 1]) by {
        assert(one_edit(texts[i], texts[i + 1]));
        edits_in_front(texts[i], texts[i + 1], last);
    }
    r
}

proof fn script_to_more(texts: Seq<Seq<u8>>, a: Seq<u8>, b: Seq<u8>, c: Seq<u8>) -> (r: Seq<Seq<u8>>)
    requires
        script(texts, a, b),
        one_edit(b, c),
    ensures
        script(r, a, c),
        r.len() == texts.len() + 1,
{
    let r = texts.push(c);
    assert forall|i: int| 0 <= i < r.len() - 1 implies one_edit(#[trigger] r[i], r[i + 1]) by {
        if i < texts.len() - 1 {
            assert(one_edit(texts[i], texts[i + 1]));
        }
    }
    r
}

proof fn script_from_more(texts: Seq<Seq<u8>>, a: Seq<u8>, b: Seq<u8>, c: Seq<u8>) -> (r: Seq<
    Seq<u8>,
>)
    requires
        one_edit(a, b),
        script(texts, b, c),
    ensures
        script(r, a, c),
        r.len() == texts.len() + 1,
{
    let r = seq![a] + texts;
    assert forall|i: int| 0 <= i < r.len() - 1 implies one_edit(#[trigger] r[i], r[i + 1]) by {
        if i > 0 {
            assert(one_edit(texts[i - 1], texts[i]));
        }
    }
    r
}

/// There is a script that leads from one text to another with as many edits as the distance says.
pub proof fn some_script_is_as_short(a: Seq<u8>, b: Seq<u8>) -> (texts: Seq<Seq<u8>>)
    ensures
        script(texts, a, b),
        texts.len() - 1 == suggestions::distance(a, b),
    decreases a.len() + b.len(),
{
    if a.len() == 0 && b.len() == 0 {
        assert(a =~= b);
        seq![a]
    } else if a.len() == 0 {
        let before = b.drop_last();
        let texts = some_script_is_as_short(a, before);
        assert(b =~= before.insert(before.len() as int, b.last()));
        assert(edited(before, b, before.len() as int, b.last()));
        script_to_more(texts, a, before, b)
    } else if b.len() == 0 {
        let rest = a.drop_last();
        let texts = some_script_is_as_short(rest, b);
        assert(a =~= rest.insert(rest.len() as int, a.last()));
        assert(edited(a, rest, rest.len() as int, a.last()));
        script_from_more(texts, a, rest, b)
    } else {
        let (rest, before) = (a.drop_last(), b.drop_last());
        let d = suggestions::distance(a, b);
        assert(rest.push(a.last()) =~= a);
        assert(before.push(b.last()) =~= b);
        if d == suggestions::distance(rest, b) + 1 {
            let texts = some_script_is_as_short(rest, b);
            assert(a =~= rest.insert(rest.len() as int, a.last()));
            assert(edited(a, rest, rest.len() as int, a.last()));
            script_from_more(texts, a, rest, b)
        } else if d == suggestions::distance(a, before) + 1 {
            let texts = some_script_is_as_short(a, before);
            assert(b =~= before.insert(before.len() as int, b.last()));
            assert(edited(before, b, before.len() as int, b.last()));
            script_to_more(texts, a, before, b)
        } else {
            let texts = some_script_is_as_short(rest, before);
            let same = script_with_last(texts, rest, before, a.last());
            if a.last() == b.last() {
                same
            } else {
                let middle = before.push(a.last());
                assert(b =~= middle.update(before.len() as int, b.last()));
                assert(edited(middle, b, before.len() as int, b.last()));
                script_to_more(same, a, middle, b)
            }
        }
    }
}

/// Two texts have no distance just when they are the same.
pub proof fn only_equal_texts_have_no_distance(a: Seq<u8>, b: Seq<u8>)
    ensures
        suggestions::distance(a, b) == 0 <==> a == b,
{
    if a == b {
        no_way_to_itself(a);
    } else {
        let texts = some_script_is_as_short(a, b);
        if suggestions::distance(a, b) == 0 {
            assert(texts[0] == texts.last());
        }
    }
}

} // verus!
