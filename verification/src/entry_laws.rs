//! What the entries of a file say, and how numbers are rounded and written.

use crate::document;
use crate::model::OutputId;
use crate::overview;
use crate::reading_laws;
use crate::rounding;
use crate::settings;
use crate::snapshot;
use crate::text;
use crate::wire::v1;
use vstd::prelude::*;

verus! {

/// The arguments of a node are the values of its entries without a name, in their order.
pub proof fn arguments_are_in_order(entries: Seq<document::EntryView>)
    ensures
        settings::positional(entries) == entries.filter(
            |entry: document::EntryView| entry.name is None,
        ).map_values(|entry: document::EntryView| entry.value),
    decreases entries.len(),
{
    reveal(Seq::filter);
    if entries.len() > 0 {
        arguments_are_in_order(entries.drop_last());
    }
    assert(settings::positional(entries) =~= entries.filter(
        |entry: document::EntryView| entry.name is None,
    ).map_values(|entry: document::EntryView| entry.value));
}

/// A property has the value of the last entry with its name.
pub proof fn the_last_property_counts(entries: Seq<document::EntryView>, name: Seq<char>)
    ensures
        match settings::property(entries, name) {
            Some(value) => exists|i: int|
                0 <= i < entries.len() && (#[trigger] entries[i]).name == Some(name)
                    && entries[i].value == value && forall|j: int|
                    i < j < entries.len() ==> (#[trigger] entries[j]).name != Some(name),
            None => forall|i: int|
                0 <= i < entries.len() ==> (#[trigger] entries[i]).name != Some(name),
        },
    decreases entries.len(),
{
    if entries.len() > 0 {
        let rest = entries.drop_last();
        let end = entries.len() - 1;
        the_last_property_counts(rest, name);
        if entries.last().name == Some(name) {
            assert(entries[end].name == Some(name));
        } else {
            assert(forall|i: int| 0 <= i < end ==> #[trigger] rest[i] == entries[i]);
            assert(forall|i: int| 0 <= i < end ==> #[trigger] entries[i] == rest[i]);
            if let Some(value) = settings::property(entries, name) {
                let i = choose|i: int|
                    0 <= i < rest.len() && (#[trigger] rest[i]).name == Some(name) && rest[i].value
                        == value && forall|j: int|
                        i < j < rest.len() ==> (#[trigger] rest[j]).name != Some(name);
                assert(entries[i].name == Some(name));
            }
        }
    }
}

/// Whether an entry has a name that may not be there, or that was there before.
pub open spec fn is_stray(
    entries: Seq<document::EntryView>,
    i: int,
    allowed: Seq<Seq<char>>,
) -> bool {
    entries[i].name is Some && (!allowed.contains(entries[i].name->0) || exists|j: int|
        0 <= j < i && (#[trigger] entries[j]).name == entries[i].name)
}

/// Properties are accepted where each is allowed and none is there twice.
pub proof fn properties_are_allowed_once(
    entries: Seq<document::EntryView>,
    n: int,
    allowed: Seq<Seq<char>>,
)
    requires
        0 <= n <= entries.len(),
    ensures
        settings::properties_fault(entries, n, allowed) is None <==> forall|i: int|
            0 <= i < n ==> !#[trigger] is_stray(entries, i, allowed),
    decreases n,
{
    if n > 0 {
        properties_are_allowed_once(entries, n - 1, allowed);
        let stray = is_stray(entries, n - 1, allowed);
        if settings::properties_fault(entries, n, allowed) is None {
            assert(!stray);
        }
    }
}

/// The texts of some values are there where each value is a text.
pub proof fn texts_are_all_or_none(values: Seq<document::ValueView>)
    ensures
        match settings::all_texts(values) {
            Some(list) => list.len() == values.len() && forall|i: int|
                0 <= i < values.len() ==> #[trigger] values[i] == document::ValueView::Text(list[i]),
            None => exists|i: int| 0 <= i < values.len() && !((#[trigger] values[i]) is Text),
        },
    decreases values.len(),
{
    if values.len() > 0 {
        let rest = values.drop_last();
        let end = values.len() - 1;
        texts_are_all_or_none(rest);
        assert(values[end] == values.last());
        assert(forall|i: int| 0 <= i < end ==> #[trigger] values[i] == rest[i]);
        if settings::all_texts(rest) is None {
            let i = choose|i: int| 0 <= i < rest.len() && !((#[trigger] rest[i]) is Text);
            assert(!(values[i] is Text));
        }
    }
}

/// A setting of one number is the value of the only argument, which has no properties and no
/// block beside it, where the number is in the range that is asked for.
pub proof fn settings_are_single_numbers(node: document::NodeView, label: Seq<char>)
    ensures
        ({
            let alone = settings::positional(node.entries).len() == 1 && node.entries.len() == 1
                && !node.has_children;
            let value = settings::positional(node.entries)[0];
            &&& alone && value is Integer && i64::MIN <= value->Integer_0 <= i64::MAX
                ==> settings::only_integer(node, label) == Ok::<i64, Seq<char>>(
                value->Integer_0 as i64,
            )
            &&& settings::only_integer(node, label) matches Ok(n) ==> alone && value
                == document::ValueView::Integer(n as i128)
            &&& settings::only_u64(node, label) matches Ok(n) ==> alone && value
                == document::ValueView::Integer(n as i128)
            &&& settings::only_u32(node, label) matches Ok(n) ==> alone && value
                == document::ValueView::Integer(n as i128)
            &&& alone && value is Integer && 0 <= value->Integer_0 <= i64::MAX
                ==> settings::only_u64(node, label) == Ok::<u64, Seq<char>>(
                value->Integer_0 as u64,
            )
            &&& alone && value is Integer && 0 <= value->Integer_0 <= u32::MAX
                ==> settings::only_u32(node, label) == Ok::<u32, Seq<char>>(
                value->Integer_0 as u32,
            )
        }),
{
    let entries = node.entries;
    let n = entries.len() as int;
    let none = Seq::<Seq<char>>::empty();
    properties_are_allowed_once(entries, n, none);
    nameless_entries_are_arguments(entries);
    if settings::properties_fault(entries, n, none) is None {
        assert forall|i: int| 0 <= i < n implies (#[trigger] entries[i]).name is None by {
            assert(!is_stray(entries, i, none));
        }
    }
    if n == 1 && settings::positional(entries).len() == 1 {
        assert(entries.drop_last() =~= Seq::empty());
        assert(settings::positional(entries.drop_last()).len() == 0);
        assert(entries[0].name is None);
        assert(!is_stray(entries, 0, none));
    }
}

proof fn nameless_entries_are_arguments(entries: Seq<document::EntryView>)
    ensures
        settings::positional(entries).len() <= entries.len(),
        (forall|i: int| 0 <= i < entries.len() ==> (#[trigger] entries[i]).name is None)
            ==> settings::positional(entries).len() == entries.len(),
    decreases entries.len(),
{
    if entries.len() > 0 {
        nameless_entries_are_arguments(entries.drop_last());
        assert(entries[entries.len() - 1] == entries.last());
        assert(forall|i: int|
            0 <= i < entries.len() - 1 ==> #[trigger] entries.drop_last()[i] == entries[i]);
    }
}

/// A truth value is what it says, as a value or as a word.
pub proof fn truths_are_said(value: document::ValueView)
    ensures
        settings::truth(value) == Some(true) <==> value == document::ValueView::Bool(true) || value
            == document::ValueView::Text("true"@),
        settings::truth(value) == Some(false) <==> value == document::ValueView::Bool(false)
            || value == document::ValueView::Text("false"@),
{
    reveal_strlit("true");
    reveal_strlit("false");
    assert("true"@.len() != "false"@.len());
}

/// A quotient is rounded to an integer that no other is nearer than. Between two that are as near
/// it is the even one.
pub proof fn quotients_are_rounded_to_the_nearest(n: int, d: int, other: int)
    requires
        d > 0,
    ensures
        ({
            let r = rounding::nearest_even(n, d);
            let far = vstd::math::abs(r * d - n);
            let farther = vstd::math::abs(other * d - n);
            &&& far <= farther
            &&& far == farther && other != r ==> r % 2 == 0
        }),
{
    let q = n / d;
    let r = n % d;
    assert(n == q * d + r && 0 <= r < d) by (nonlinear_arith)
        requires
            q == n / d,
            r == n % d,
            d > 0,
    ;
    let m = rounding::nearest_even(n, d);
    assert((q + 1) * d == q * d + d) by (nonlinear_arith);
    if other > q {
        let k = other - q - 1;
        assert(other * d == q * d + d + k * d) by (nonlinear_arith)
            requires
                k == other - q - 1,
        ;
        assert(k * d >= 0 && (k > 0 ==> k * d >= d)) by (nonlinear_arith)
            requires
                k >= 0,
                d > 0,
        ;
    } else {
        let k = q - other;
        assert(other * d == q * d - k * d) by (nonlinear_arith)
            requires
                k == q - other,
        ;
        assert(k * d >= 0 && (k > 0 ==> k * d >= d)) by (nonlinear_arith)
            requires
                k >= 0,
                d > 0,
        ;
    }
}

/// Halves and quotients that are rounded up, or away from zero, are off by half at most, and a
/// half goes that way.
pub proof fn halves_go_their_way(n: int, d: int)
    requires
        n >= 0,
        d > 0,
    ensures
        ({
            let r = rounding::nearest_up(n, d);
            -d <= 2 * (n - r * d) < d
        }),
        2 * rounding::half_away(n) == n || 2 * rounding::half_away(n) == n + 1,
        rounding::half_away(-n) == -rounding::half_away(n),
{
    let r = rounding::nearest_up(n, d);
    let rest = (2 * n + d) % (2 * d);
    assert(2 * n + d == r * (2 * d) + rest && 0 <= rest < 2 * d) by (nonlinear_arith)
        requires
            r == (2 * n + d) / (2 * d),
            rest == (2 * n + d) % (2 * d),
            d > 0,
    ;
    assert(r * (2 * d) == 2 * (r * d)) by (nonlinear_arith);
}

/// The scale of an output is said to the nearest hundredth of its factor.
pub proof fn scales_are_said_in_hundredths(scale: u32)
    ensures
        vstd::math::abs(120 * overview::hundredths(scale) - 100 * scale) <= 60,
{
    if scale > 0 {
        let n = scale as int;
        let s = rounding::quotient_scale(n, 120);
        let q = rounding::quotient(n, 120);
        let h = overview::hundredths(scale);
        rounding::quotient_scale_bounds(n, 120);
        assert(s > 300) by (nonlinear_arith)
            requires
                120 * 0x10_0000_0000_0000 <= n * s,
                0 < n <= 0xffff_ffff,
                s >= 1,
        ;
        within_half(n * s, 120);
        within_half(100 * q, s);
        assert(2 * vstd::math::abs(q * 120 - n * s) <= 120);
        assert(2 * vstd::math::abs(h * s - 100 * q) <= s);
        let off = 120 * h - 100 * n;
        assert(off * s == 120 * (h * s) - 100 * (n * s)) by (nonlinear_arith)
            requires
                off == 120 * h - 100 * n,
        ;
        assert(vstd::math::abs(off * s) <= 60 * s + 6000);
        if off > 60 {
            assert(off >= 80);
            assert(off * s >= 80 * s) by (nonlinear_arith)
                requires
                    off >= 80,
                    s >= 1,
            ;
        } else if off < -60 {
            assert(off <= -80);
            assert(off * s <= -80 * s) by (nonlinear_arith)
                requires
                    off <= -80,
                    s >= 1,
            ;
        }
    }
}

proof fn within_half(n: int, d: int)
    requires
        d > 0,
    ensures
        2 * vstd::math::abs(rounding::nearest_even(n, d) * d - n) <= d,
{
    let q = n / d;
    let r = n % d;
    assert(n == q * d + r && 0 <= r < d) by (nonlinear_arith)
        requires
            q == n / d,
            r == n % d,
            d > 0,
    ;
    assert((q + 1) * d == q * d + d) by (nonlinear_arith);
}

/// A number is written with a dash in front where it is negative, and with the digits of its
/// magnitude.
pub proof fn signs_are_written(n: int)
    ensures
        n >= 0 ==> reading_laws::decimal_value(text::signed_decimal(n)) == n
            && text::signed_decimal(n)[0] != '-',
        n < 0 ==> text::signed_decimal(n)[0] == '-' && reading_laws::decimal_value(
            text::signed_decimal(n).skip(1),
        ) == -n,
{
    if n >= 0 {
        reading_laws::numbers_read_back(n);
        assert('0' <= text::decimal(n)[0]);
    } else {
        reading_laws::numbers_read_back(-n);
        assert(text::signed_decimal(n).skip(1) =~= text::decimal(-n));
    }
}

proof fn outputs_are_found(list: Seq<v1::OutputSnapshotView>, id: v1::OutputId)
    ensures
        match snapshot::output_with_id(list, id) {
            Some(output) => output.id == id && list.contains(output),
            None => forall|i: int| 0 <= i < list.len() ==> (#[trigger] list[i]).id != id,
        },
    decreases list.len(),
{
    if list.len() > 0 {
        let rest = list.skip(1);
        outputs_are_found(rest, id);
        if list[0].id != id {
            assert(forall|i: int| 1 <= i < list.len() ==> #[trigger] list[i] == rest[i - 1]);
            if let Some(output) = snapshot::output_with_id(list, id) {
                let i = rest.index_of(output);
                assert(list[i + 1] == output);
            }
        }
    }
}

proof fn workspaces_are_found(list: Seq<v1::WorkspaceSnapshotView>, id: v1::WorkspaceId)
    ensures
        match snapshot::workspace_with_id(list, id) {
            Some(ws) => ws.id == id && list.contains(ws),
            None => forall|i: int| 0 <= i < list.len() ==> (#[trigger] list[i]).id != id,
        },
    decreases list.len(),
{
    if list.len() > 0 {
        let rest = list.skip(1);
        workspaces_are_found(rest, id);
        if list[0].id != id {
            assert(forall|i: int| 1 <= i < list.len() ==> #[trigger] list[i] == rest[i - 1]);
            if let Some(ws) = snapshot::workspace_with_id(list, id) {
                let i = rest.index_of(ws);
                assert(list[i + 1] == ws);
            }
        }
    }
}

/// The focus that is told of is that of the workspace that the active output shows; without an
/// active output there is none.
pub proof fn the_focus_is_on_the_active_output(state: v1::SnapshotView, output: Option<OutputId>)
    ensures
        ({
            let after = state.with_active(output);
            &&& output is None ==> after.active_output is None && after.focused_window is None
            &&& output matches Some(id) ==> after.active_output == Some(v1::OutputId(id.0))
            &&& after.focused_window matches Some(window) ==> exists|i: int, j: int|
                0 <= i < state.outputs.len() && 0 <= j < state.workspaces.len()
                    && Some((#[trigger] state.outputs[i]).id) == after.active_output && (
                #[trigger] state.workspaces[j]).id == state.outputs[i].active_workspace
                    && state.workspaces[j].active_window == Some(window)
            &&& after.outputs == state.outputs && after.workspaces == state.workspaces
                && after.windows == state.windows
        }),
{
    if let Some(id) = output {
        outputs_are_found(state.outputs, v1::OutputId(id.0));
        if let Some(found) = snapshot::output_with_id(state.outputs, v1::OutputId(id.0)) {
            workspaces_are_found(state.workspaces, found.active_workspace);
            if let Some(ws) = snapshot::workspace_with_id(
                state.workspaces,
                found.active_workspace,
            ) {
                let i = state.outputs.index_of(found);
                let j = state.workspaces.index_of(ws);
                assert(state.outputs[i] == found && state.workspaces[j] == ws);
            }
        }
    }
}

} // verus!
