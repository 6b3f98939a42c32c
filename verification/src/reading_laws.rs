//! What written numbers, parts of texts and selectors mean.

use crate::actions::CardinalDirection;
use crate::client;
use crate::client::DirectionArg;
use crate::ipc;
use crate::location;
use crate::scan;
use crate::suggestions;
use crate::text;
use crate::wire::v1;
use vstd::prelude::*;
use vstd::utf8;

verus! {

/// The value of decimal digits: each counts ten times as much as the one behind it.
pub open spec fn decimal_value(s: Seq<char>) -> int
    decreases s.len(),
{
    if s.len() == 0 {
        0
    } else {
        decimal_value(s.drop_last()) * 10 + (s.last() as int - 48)
    }
}

/// Numbers are written in decimal digits that have their value, without zeros in front, and read
/// back from them.
pub proof fn numbers_read_back(n: int)
    requires
        n >= 0,
    ensures
        text::decimal(n).len() > 0,
        forall|i: int| 0 <= i < text::decimal(n).len() ==> '0' <= #[trigger] text::decimal(n)[i] <= '9',
        decimal_value(text::decimal(n)) == n,
        n > 0 ==> text::decimal(n)[0] != '0',
        n == 0 ==> text::decimal(n).len() == 1,
        scan::numeral(text::decimal(n), 10) == Some(n),
        n <= u32::MAX ==> scan::number(text::decimal(n), 10) == Some(n as u32),
        ipc::number(text::decimal(n)) == n,
        n <= u16::MAX ==> ipc::version_of(text::decimal(n)) == Some(n as u16),
    decreases n,
{
    let s = text::decimal(n);
    if n < 10 {
        assert(s.drop_last() =~= Seq::empty());
        reveal_with_fuel(decimal_value, 2);
        reveal_with_fuel(scan::numeral, 2);
        reveal_with_fuel(ipc::number, 2);
    } else {
        numbers_read_back(n / 10);
        let front = text::decimal(n / 10);
        assert(s.drop_last() =~= front);
        assert(s.last() == text::digit(n % 10));
        assert(s[0] == front[0]);
        assert forall|i: int| 0 <= i < s.len() implies '0' <= #[trigger] s[i] <= '9' by {
            if i < front.len() {
                assert(s[i] == front[i]);
            }
        }
    }
    assert(s[0] != '+');
    assert(ipc::all_digits(s));
}

/// What lies between separators has none, and put together again with them it is the whole.
pub proof fn pieces_make_the_whole(s: Seq<char>, separator: char)
    ensures
        scan::pieces(s, separator).len() > 0,
        forall|i: int, j: int|
            0 <= i < scan::pieces(s, separator).len() && 0 <= j < scan::pieces(s, separator)[i].len()
                ==> #[trigger] scan::pieces(s, separator)[i][j] != separator,
        joined(scan::pieces(s, separator), separator) == s,
    decreases s.len(),
{
    let all = scan::pieces(s, separator);
    if s.len() == 0 {
        reveal_with_fuel(joined, 2);
        assert(joined(all, separator) =~= s);
    } else {
        let front = s.drop_last();
        let before = scan::pieces(front, separator);
        pieces_make_the_whole(front, separator);
        if s.last() == separator {
            assert(all.drop_last() =~= before);
            assert(joined(all, separator) =~= s) by {
                assert(joined(all, separator) == joined(before, separator).push(separator)
                    + all.last());
            }
            assert forall|i: int, j: int|
                0 <= i < all.len() && 0 <= j < all[i].len() implies #[trigger] all[i][j]
                != separator by {
                if i < before.len() {
                    assert(all[i] == before[i]);
                    assert(before[i][j] != separator);
                }
            }
        } else {
            assert(all.drop_last() =~= before.drop_last());
            if before.len() > 1 {
                assert(joined(all, separator) == joined(before.drop_last(), separator).push(
                    separator,
                ) + all.last());
                assert(joined(before, separator) == joined(before.drop_last(), separator).push(
                    separator,
                ) + before.last());
            } else {
                reveal_with_fuel(joined, 2);
            }
            assert(joined(all, separator) =~= joined(before, separator).push(s.last()));
            assert(joined(all, separator) =~= s);
            assert forall|i: int, j: int|
                0 <= i < all.len() && 0 <= j < all[i].len() implies #[trigger] all[i][j]
                != separator by {
                if i < before.len() - 1 {
                    assert(all[i] == before[i]);
                    assert(before[i][j] != separator);
                } else if j < before.last().len() {
                    assert(before[before.len() - 1][j] != separator);
                }
            }
        }
    }
}

/// Texts put together with a separator between them.
pub open spec fn joined(parts: Seq<Seq<char>>, separator: char) -> Seq<char>
    decreases parts.len(),
{
    if parts.len() == 0 {
        Seq::empty()
    } else if parts.len() == 1 {
        parts[0]
    } else {
        joined(parts.drop_last(), separator).push(separator) + parts.last()
    }
}

proof fn starts_are_trimmed(s: Seq<char>) -> (n: int)
    ensures
        0 <= n <= s.len(),
        scan::trimmed_start(s) == s.skip(n),
        forall|i: int| 0 <= i < n ==> text::whitespace(#[trigger] s[i]),
        n < s.len() ==> !text::whitespace(s[n]),
    decreases s.len(),
{
    if s.len() > 0 && text::whitespace(s[0]) {
        let m = starts_are_trimmed(s.skip(1));
        assert(s.skip(1).skip(m) =~= s.skip(m + 1));
        assert forall|i: int| 0 <= i < m + 1 implies text::whitespace(#[trigger] s[i]) by {
            if i > 0 {
                assert(s.skip(1)[i - 1] == s[i]);
            }
        }
        m + 1
    } else {
        assert(s.skip(0) =~= s);
        0
    }
}

proof fn ends_are_trimmed(s: Seq<char>) -> (n: int)
    ensures
        0 <= n <= s.len(),
        scan::trimmed_end(s) == s.take(n),
        forall|i: int| n <= i < s.len() ==> text::whitespace(#[trigger] s[i]),
        n > 0 ==> !text::whitespace(s[n - 1]),
    decreases s.len(),
{
    if s.len() > 0 && text::whitespace(s.last()) {
        let m = ends_are_trimmed(s.drop_last());
        assert(s.drop_last().take(m) =~= s.take(m));
        assert forall|i: int| m <= i < s.len() implies text::whitespace(#[trigger] s[i]) by {
            if i < s.len() - 1 {
                assert(s.drop_last()[i] == s[i]);
            }
        }
        m
    } else {
        assert(s.take(s.len() as int) =~= s);
        s.len() as int
    }
}

/// Trimming takes white space from both ends of a text, all of it and nothing else.
pub proof fn trimming_takes_white_space(s: Seq<char>)
    ensures
        exists|a: int, b: int|
            0 <= a <= b <= s.len() && scan::trimmed(s) == #[trigger] s.subrange(a, b) && (forall|
                i: int,
            |
                (0 <= i < a || b <= i < s.len()) ==> text::whitespace(#[trigger] s[i])) && (a < b
                ==> !text::whitespace(s[a]) && !text::whitespace(s[b - 1])),
{
    let a = starts_are_trimmed(s);
    let rest = s.skip(a);
    let n = ends_are_trimmed(rest);
    let b = a + n;
    assert(rest.take(n) =~= s.subrange(a, b));
    assert forall|i: int| (0 <= i < a || b <= i < s.len()) implies text::whitespace(
        #[trigger] s[i],
    ) by {
        if i >= b {
            assert(rest[i - a] == s[i]);
        }
    }
    if a < b {
        assert(rest[n - 1] == s[b - 1]);
    }
}

/// Lower case has as many characters; a letter from A to Z is the one 32 farther on, and every other
/// character stays.
pub proof fn lower_case_is_farther_on(s: Seq<char>, i: int)
    requires
        0 <= i < s.len(),
    ensures
        scan::lowered(s).len() == s.len(),
        65 <= s[i] as int <= 90 ==> scan::lowered(s)[i] as int == s[i] as int + 32,
        !(65 <= s[i] as int <= 90) ==> scan::lowered(s)[i] == s[i],
{
}

/// The line of a place counts from one, and goes on by one with every line feed before the place;
/// the column counts from one again behind each, and goes on by one with every other byte.
pub proof fn places_are_counted(a: Seq<u8>, b: Seq<u8>)
    ensures
        location::line(Seq::empty()) == 1,
        location::line(a.push(10)) == location::line(a) + 1,
        forall|x: u8| x != 10 ==> #[trigger] location::line(a.push(x)) == location::line(a),
        location::line(a + b) == location::line(a) + location::line(b) - 1,
        (forall|i: int| 0 <= i < b.len() ==> #[trigger] b[i] != 10) ==> location::column(
            a.push(10) + b,
        ) == b.len() + 1 && location::column(b) == b.len() + 1 && location::line(b) == 1,
    decreases b.len(),
{
    assert(a.push(10).drop_last() =~= a);
    assert forall|x: u8| x != 10 implies #[trigger] location::line(a.push(x)) == location::line(
        a,
    ) by {
        assert(a.push(x).drop_last() =~= a);
    }
    if b.len() == 0 {
        assert(a + b =~= a);
        assert(a.push(10) + b =~= a.push(10));
    } else {
        let front = b.drop_last();
        places_are_counted(a, front);
        assert((a + b).drop_last() =~= a + front);
        assert((a.push(10) + b).drop_last() =~= a.push(10) + front);
        if forall|i: int| 0 <= i < b.len() ==> #[trigger] b[i] != 10 {
            assert forall|i: int| 0 <= i < front.len() implies #[trigger] front[i] != 10 by {
                assert(front[i] == b[i]);
            }
            assert(b[b.len() - 1] != 10);
        }
    }
}

/// The suggestion for a name is one of the candidates; none of them is nearer to the name, and none
/// that is as near stands in front of it.
pub proof fn suggestions_are_nearest(name: Seq<char>, candidates: Seq<Seq<char>>)
    ensures
        match suggestions::nearest(name, candidates) {
            None => candidates.len() == 0,
            Some(best) => exists|k: int|
                0 <= k < candidates.len() && #[trigger] candidates[k] == best && forall|j: int|
                    0 <= j < candidates.len() ==> {
                        let near = suggestions::distance(
                            utf8::encode_utf8(name),
                            utf8::encode_utf8(best),
                        );
                        let far = suggestions::distance(
                            utf8::encode_utf8(name),
                            utf8::encode_utf8(#[trigger] candidates[j]),
                        );
                        near <= far && (j < k ==> near < far)
                    },
        },
    decreases candidates.len(),
{
    if candidates.len() > 0 {
        let front = candidates.drop_last();
        let n = candidates.len() - 1;
        suggestions_are_nearest(name, front);
        match suggestions::nearest(name, front) {
            None => {
                assert(candidates[n] == candidates.last());
            },
            Some(best) => {
                let k = choose|k: int|
                    0 <= k < front.len() && #[trigger] front[k] == best && forall|j: int|
                        0 <= j < front.len() ==> {
                            let near = suggestions::distance(
                                utf8::encode_utf8(name),
                                utf8::encode_utf8(best),
                            );
                            let far = suggestions::distance(
                                utf8::encode_utf8(name),
                                utf8::encode_utf8(#[trigger] front[j]),
                            );
                            near <= far && (j < k ==> near < far)
                        };
                assert(candidates[k] == best);
                assert(candidates[n] == candidates.last());
                assert forall|j: int| 0 <= j < n implies #[trigger] candidates[j] == front[j] by {}
            },
        }
    }
}

/// A suggestion is made just where a candidate differs from the name by no more than three edits.
pub proof fn suggestions_are_close(kind: Seq<char>, name: Seq<char>, candidates: Seq<Seq<char>>)
    ensures
        ({
            let plain = "unknown "@ + kind + " `"@ + name + "`"@;
            let said = suggestions::unknown_name(kind, name, candidates);
            let close = exists|k: int|
                0 <= k < candidates.len() && suggestions::distance(
                    utf8::encode_utf8(name),
                    utf8::encode_utf8(#[trigger] candidates[k]),
                ) <= 3;
            &&& !close ==> said == plain
            &&& close ==> suggestions::nearest(name, candidates) is Some && said == plain
                + "; did you mean `"@ + suggestions::nearest(name, candidates)->0 + "`?"@
        }),
{
    suggestions_are_nearest(name, candidates);
    let plain = "unknown "@ + kind + " `"@ + name + "`"@;
    let said = suggestions::unknown_name(kind, name, candidates);
    if let Some(best) = suggestions::nearest(name, candidates) {
        let k = choose|k: int|
            0 <= k < candidates.len() && #[trigger] candidates[k] == best && forall|j: int|
                0 <= j < candidates.len() ==> {
                    let near = suggestions::distance(
                        utf8::encode_utf8(name),
                        utf8::encode_utf8(best),
                    );
                    let far = suggestions::distance(
                        utf8::encode_utf8(name),
                        utf8::encode_utf8(#[trigger] candidates[j]),
                    );
                    near <= far && (j < k ==> near < far)
                };
        assert(candidates[k] == best);
        assert(plain + ("; did you mean `"@ + best + "`?"@) =~= plain + "; did you mean `"@ + best
            + "`?"@);
    }
    assert(plain + Seq::<char>::empty() =~= plain);
}

/// Wherever an argument names an output, the word `active` means the active one, digits mean the id
/// that they write, and anything else means a stable key; nothing at all means the active one, and
/// an empty text is refused.
pub proof fn arguments_mean_outputs(n: u32, key: Seq<char>)
    requires
        key != "active"@,
        key.len() > 0,
        scan::number(key, 10) is None,
    ensures
        client::meant_output(None) == Ok::<v1::OutputSelectorView, Seq<char>>(
            v1::OutputSelectorView::Active,
        ),
        client::meant_output(Some("active"@)) == Ok::<v1::OutputSelectorView, Seq<char>>(
            v1::OutputSelectorView::Active,
        ),
        client::meant_output(Some(text::decimal(n as int))) == Ok::<
            v1::OutputSelectorView,
            Seq<char>,
        >(v1::OutputSelectorView::Id(v1::OutputId(n))),
        client::meant_output(Some(key)) == Ok::<v1::OutputSelectorView, Seq<char>>(
            v1::OutputSelectorView::Key(key),
        ),
        client::meant_output(Some(Seq::empty())) is Err,
{
    numbers_read_back(n as int);
    reveal_strlit("active");
    assert("active"@[0] == 'a');
    let s = text::decimal(n as int);
    assert('0' <= s[0] <= '9');
}

/// Wherever an argument names a workspace, digits mean the place on the output, which counts from
/// one; digits behind `id:` mean the id; and anything else means a name. Only a place goes with an
/// output.
pub proof fn arguments_mean_workspaces(n: u32, name: Seq<char>, output: Option<Seq<char>>)
    requires
        name.len() > 0,
        !"id:"@.is_prefix_of(name),
        scan::number(name, 10) is None,
    ensures
        client::meant_workspace("id:"@ + text::decimal(n as int), None) == Ok::<
            v1::WorkspaceSelectorView,
            Seq<char>,
        >(v1::WorkspaceSelectorView::Id(v1::WorkspaceId(n))),
        output is Some ==> client::meant_workspace("id:"@ + text::decimal(n as int), output) is Err,
        n > 0 ==> match client::meant_output(output) {
            Ok(on) => client::meant_workspace(text::decimal(n as int), output) == Ok::<
                v1::WorkspaceSelectorView,
                Seq<char>,
            >(v1::WorkspaceSelectorView::LocalIndex { output: on, index: n }),
            Err(_) => client::meant_workspace(text::decimal(n as int), output) is Err,
        },
        client::meant_workspace(text::decimal(0), output) is Err,
        client::meant_workspace(name, None) == Ok::<v1::WorkspaceSelectorView, Seq<char>>(
            v1::WorkspaceSelectorView::Name(name),
        ),
        output is Some ==> client::meant_workspace(name, output) is Err,
        client::meant_workspace(Seq::empty(), output) is Err,
{
    numbers_read_back(n as int);
    numbers_read_back(0);
    reveal_strlit("id:");
    assert("id:"@[0] == 'i' && "id:"@.len() == 3);
    let s = text::decimal(n as int);
    let zero = text::decimal(0);
    assert('0' <= s[0] <= '9' && '0' <= zero[0] <= '9');
    if "id:"@.is_prefix_of(s) {
        assert(s[0] == "id:"@[0]);
    }
    if "id:"@.is_prefix_of(zero) {
        assert(zero[0] == "id:"@[0]);
    }
    let whole = "id:"@ + s;
    assert("id:"@.is_prefix_of(whole));
    assert(whole.skip(3) =~= s);
}

proof fn keyed_outputs_are_found(list: Seq<v1::OutputSnapshotView>, key: Seq<char>)
    ensures
        match client::output_keyed(list, key) {
            Some(id) => exists|i: int|
                0 <= i < list.len() && (#[trigger] list[i]).id == id && list[i].stable_key == key,
            None => forall|i: int| 0 <= i < list.len() ==> (#[trigger] list[i]).stable_key != key,
        },
    decreases list.len(),
{
    if list.len() > 0 {
        let rest = list.skip(1);
        keyed_outputs_are_found(rest, key);
        if list[0].stable_key != key {
            match client::output_keyed(rest, key) {
                Some(id) => {
                    let i = choose|i: int|
                        0 <= i < rest.len() && (#[trigger] rest[i]).id == id && rest[i].stable_key
                            == key;
                    assert(list[i + 1].id == id);
                },
                None => {
                    assert forall|i: int| 0 <= i < list.len() implies (
                    #[trigger] list[i]).stable_key != key by {
                        if i > 0 {
                            assert(rest[i - 1] == list[i]);
                        }
                    }
                },
            }
        } else {
            assert(list[0].id == list[0].id);
        }
    }
}

proof fn placed_workspaces_are_found(
    list: Seq<v1::WorkspaceSnapshotView>,
    output: v1::OutputId,
    index: u32,
)
    ensures
        match client::workspace_at(list, output, index) {
            Some(id) => exists|i: int|
                0 <= i < list.len() && (#[trigger] list[i]).id == id && list[i].output == Some(
                    output,
                ) && list[i].local_index == Some(index),
            None => forall|i: int|
                0 <= i < list.len() ==> (#[trigger] list[i]).output != Some(output)
                    || list[i].local_index != Some(index),
        },
    decreases list.len(),
{
    if list.len() > 0 {
        let rest = list.skip(1);
        placed_workspaces_are_found(rest, output, index);
        if list[0].output == Some(output) && list[0].local_index == Some(index) {
            assert(list[0].id == list[0].id);
        } else {
            match client::workspace_at(rest, output, index) {
                Some(id) => {
                    let i = choose|i: int|
                        0 <= i < rest.len() && (#[trigger] rest[i]).id == id && rest[i].output
                            == Some(output) && rest[i].local_index == Some(index);
                    assert(list[i + 1].id == id);
                },
                None => {
                    assert forall|i: int| 0 <= i < list.len() implies (#[trigger] list[i]).output
                        != Some(output) || list[i].local_index != Some(index) by {
                        if i > 0 {
                            assert(rest[i - 1] == list[i]);
                        }
                    }
                },
            }
        }
    }
}

/// A client finds in a snapshot the output with the stable key and the workspace at the place that
/// it looks for, and finds none just when there is none.
pub proof fn clients_find_what_is_shown(
    snapshot: v1::SnapshotView,
    key: Seq<char>,
    output: v1::OutputId,
    index: u32,
)
    ensures
        match snapshot.output_of(v1::OutputSelectorView::Key(key)) {
            Some(id) => exists|i: int|
                0 <= i < snapshot.outputs.len() && (#[trigger] snapshot.outputs[i]).id == id
                    && snapshot.outputs[i].stable_key == key,
            None => forall|i: int|
                0 <= i < snapshot.outputs.len() ==> (#[trigger] snapshot.outputs[i]).stable_key
                    != key,
        },
        snapshot.output_of(v1::OutputSelectorView::Active) == snapshot.active_output,
        snapshot.output_of(v1::OutputSelectorView::Id(output)) is Some ==> match snapshot.workspace_of(
            v1::WorkspaceSelectorView::LocalIndex {
                output: v1::OutputSelectorView::Id(output),
                index,
            },
        ) {
            Ok(id) => exists|i: int|
                0 <= i < snapshot.workspaces.len() && (#[trigger] snapshot.workspaces[i]).id == id
                    && snapshot.workspaces[i].output == Some(output)
                    && snapshot.workspaces[i].local_index == Some(index),
            Err(_) => forall|i: int|
                0 <= i < snapshot.workspaces.len() ==> (#[trigger] snapshot.workspaces[i]).output
                    != Some(output) || snapshot.workspaces[i].local_index != Some(index),
        },
{
    keyed_outputs_are_found(snapshot.outputs, key);
    placed_workspaces_are_found(snapshot.workspaces, output, index);
}

/// The directions of bindings and of clients are the same: left and up are negative, right and down
/// positive, each on its own axis.
pub proof fn directions_agree()
    ensures
        ({
            let pairs = seq![
                (CardinalDirection::Left.vector(), client::direction_of(DirectionArg::Left)),
                (CardinalDirection::Right.vector(), client::direction_of(DirectionArg::Right)),
                (CardinalDirection::Up.vector(), client::direction_of(DirectionArg::Up)),
                (CardinalDirection::Down.vector(), client::direction_of(DirectionArg::Down)),
            ];
            &&& forall|i: int|
                0 <= i < 4 ==> (#[trigger] pairs[i]).0.x_bits == pairs[i].1.x_bits
                    && pairs[i].0.y_bits == pairs[i].1.y_bits
            &&& pairs[0].0.x_bits >= 0x8000_0000_0000_0000 && pairs[0].0.y_bits == 0
            &&& 0 < pairs[1].0.x_bits < 0x8000_0000_0000_0000 && pairs[1].0.y_bits == 0
            &&& pairs[2].0.y_bits >= 0x8000_0000_0000_0000 && pairs[2].0.x_bits == 0
            &&& 0 < pairs[3].0.y_bits < 0x8000_0000_0000_0000 && pairs[3].0.x_bits == 0
            &&& pairs[0].0.x_bits - pairs[1].0.x_bits == 0x8000_0000_0000_0000
            &&& pairs[2].0.y_bits - pairs[3].0.y_bits == 0x8000_0000_0000_0000
        }),
{
}

/// A frame is a line that begins with its version in decimal, then has a space and then its payload.
pub proof fn frames_say_their_version(version: u16, payload: Seq<char>)
    ensures
        ({
            let frame = ipc::frame_of(version, payload);
            let n = text::decimal(version as int).len() as int;
            &&& frame.len() == n + payload.len() + 2
            &&& decimal_value(frame.take(n)) == version
            &&& frame[n] == ' '
            &&& frame.subrange(n + 1, frame.len() - 1) == payload
            &&& frame.last() == '\n'
        }),
{
    numbers_read_back(version as int);
    let frame = ipc::frame_of(version, payload);
    let digits = text::decimal(version as int);
    let n = digits.len() as int;
    assert(frame.take(n) =~= digits);
    assert(frame.subrange(n + 1, frame.len() - 1) =~= payload);
}

} // verus!
