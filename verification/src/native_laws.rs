//! What the native backend makes of the connectors it finds, and what identifies a monitor.

use crate::native_policy;
use crate::native_policy::{ConnectorView, ModeCandidate, PlannedView, PropertyView};
use crate::text;
use vstd::arithmetic::div_mod::{lemma_mod_multiples_vanish, lemma_mul_mod_noop_left};
use vstd::prelude::*;

verus! {

/// No other mode is to be had that is preferred where the selected one is not, that has more
/// pixels while neither or both are preferred, or that is faster with as many pixels. Of those
/// that are as good it is the last.
pub proof fn selected_modes_are_best(modes: Seq<ModeCandidate>, i: int, j: int)
    requires
        native_policy::is_selected(modes, i),
        0 <= j < modes.len(),
    ensures
        0 <= i < modes.len(),
        modes[j].preferred ==> modes[i].preferred,
        modes[j].preferred == modes[i].preferred ==> modes[j].width * modes[j].height
            <= modes[i].width * modes[i].height,
        modes[j].preferred == modes[i].preferred && modes[j].width * modes[j].height
            == modes[i].width * modes[i].height ==> {
            &&& modes[j].refresh_millihz <= modes[i].refresh_millihz
            &&& modes[j].refresh_millihz == modes[i].refresh_millihz ==> j <= i
        },
{
    if j > i {
        assert(modes[j].worse_than(modes[i]));
    } else if j < i {
        assert(!modes[i].worse_than(modes[j]));
    }
}

/// A text comes before another where it is the beginning of it, or has the lesser character at
/// the first place where they differ.
pub proof fn texts_are_ordered_like_words(a: Seq<char>, b: Seq<char>, k: int)
    requires
        0 <= k <= a.len(),
        k <= b.len(),
        a.take(k) == b.take(k),
        k < a.len() && k < b.len() ==> a[k] != b[k],
    ensures
        text::comes_before(a, b) == (if k < a.len() && k < b.len() {
            a[k] < b[k]
        } else {
            a.len() < b.len()
        }),
    decreases k,
{
    if k > 0 {
        assert(a[0] == a.take(k)[0] && b[0] == b.take(k)[0]);
        let c = a.drop_first();
        let d = b.drop_first();
        assert forall|i: int| 0 <= i < k - 1 implies #[trigger] c.take(k - 1)[i] == d.take(
            k - 1,
        )[i] by {
            assert(c[i] == a.take(k)[i + 1] && d[i] == b.take(k)[i + 1]);
        }
        assert(c.take(k - 1) =~= d.take(k - 1));
        texts_are_ordered_like_words(c, d, k - 1);
    }
}

proof fn placing_keeps(list: Seq<PlannedView>, output: PlannedView)
    ensures
        native_policy::placed(list, output).len() == list.len() + 1,
        native_policy::placed(list, output).contains(output),
        forall|x: PlannedView| #[trigger]
            list.contains(x) ==> native_policy::placed(list, output).contains(x),
    decreases list.len(),
{
    let after = native_policy::placed(list, output);
    if list.len() == 0 {
        assert(after[0] == output);
    } else if text::comes_before(output.connector, list.last().connector) {
        let rest = list.drop_last();
        placing_keeps(rest, output);
        let head = native_policy::placed(rest, output);
        let i = head.index_of(output);
        assert(after[i] == output);
        assert forall|x: PlannedView| #[trigger] list.contains(x) implies after.contains(x) by {
            let j = list.index_of(x);
            if j < rest.len() {
                assert(rest[j] == x);
                assert(rest.contains(x));
                let m = head.index_of(x);
                assert(after[m] == x);
            } else {
                assert(after[head.len() as int] == x);
            }
        }
    } else {
        assert(after[list.len() as int] == output);
        assert forall|x: PlannedView| #[trigger] list.contains(x) implies after.contains(x) by {
            let j = list.index_of(x);
            assert(after[j] == x);
        }
    }
}

/// An output is planned for each connector that has a mode and is for the desktop, and for no
/// other. It is called like the connector, has one of its modes, and is the same monitor
/// wherever it is plugged in, as far as that can be told.
pub proof fn desktop_connectors_get_outputs(connectors: Seq<ConnectorView>)
    ensures
        native_policy::plan(connectors).len() == connectors.filter(
            |c: ConnectorView| !c.non_desktop && c.modes.len() > 0,
        ).len(),
        forall|c: int|
            0 <= c < connectors.len() && !(#[trigger] connectors[c]).non_desktop
                && connectors[c].modes.len() > 0 ==> native_policy::plan(connectors).contains(
                connectors[c].planned(),
            ) && connectors[c].planned().connector == connectors[c].connector
                && connectors[c].modes.contains(connectors[c].planned().mode)
                && connectors[c].planned().stable_key == native_policy::stable_key(
                connectors[c].edid,
                connectors[c].connector,
            ),
    decreases connectors.len(),
{
    reveal(Seq::filter);
    if connectors.len() > 0 {
        let rest = connectors.drop_last();
        let last = connectors.last();
        let list = native_policy::plan(rest);
        desktop_connectors_get_outputs(rest);
        if last.usable() {
            placing_keeps(list, last.planned());
        }
        assert forall|c: int|
            0 <= c < connectors.len() && !(#[trigger] connectors[c]).non_desktop
                && connectors[c].modes.len() > 0 implies native_policy::plan(connectors).contains(
            connectors[c].planned(),
        ) && connectors[c].planned().connector == connectors[c].connector
            && connectors[c].modes.contains(connectors[c].planned().mode)
            && connectors[c].planned().stable_key == native_policy::stable_key(
            connectors[c].edid,
            connectors[c].connector,
        ) by {
            let one = connectors[c];
            let at = native_policy::selection_exists(one.modes);
            assert(native_policy::is_selected(one.modes, at));
            let i = choose|i: int| native_policy::is_selected(one.modes, i);
            assert(one.modes[i] == one.planned().mode);
            if c < rest.len() {
                assert(rest[c] == one);
            }
        }
    }
}

/// The number that hexadecimal digits are read as.
pub open spec fn hex_value(digits: Seq<char>) -> int
    decreases digits.len(),
{
    if digits.len() == 0 {
        0
    } else {
        16 * hex_value(digits.drop_last()) + (if digits.last() <= '9' {
            digits.last() as int - '0' as int
        } else {
            digits.last() as int - 'a' as int + 10
        })
    }
}

/// Hexadecimal digits are read as the number that they were written for.
pub proof fn hexadecimal_reads_back(n: int, width: nat)
    requires
        0 <= n < vstd::arithmetic::power::pow(16, width),
    ensures
        text::hexadecimal(n, width).len() == width,
        hex_value(text::hexadecimal(n, width)) == n,
    decreases width,
{
    reveal(vstd::arithmetic::power::pow);
    if width > 0 {
        hexadecimal_reads_back(n / 16, (width - 1) as nat);
        let digits = text::hexadecimal(n, width);
        assert(digits.drop_last() =~= text::hexadecimal(n / 16, (width - 1) as nat));
    }
}

proof fn widths()
    ensures
        vstd::arithmetic::power::pow(16, 4) == 0x1_0000,
        vstd::arithmetic::power::pow(16, 8) == 0x1_0000_0000,
        vstd::arithmetic::power::pow(16, 16) == 0x1_0000_0000_0000_0000,
{
    reveal_with_fuel(vstd::arithmetic::power::pow, 17);
}

/// The key of a monitor says its manufacturer, product and serial number, and the fingerprint
/// of its whole EDID. An EDID that is too short for that says nothing, and the connector stands
/// for the monitor.
pub proof fn keys_say_the_monitor(edid: Seq<u8>, fallback: Seq<char>)
    ensures
        ({
            let key = native_policy::stable_key(Some(edid), fallback);
            &&& edid.len() < 16 ==> key == fallback
            &&& edid.len() >= 16 ==> {
                &&& key.len() == 40
                &&& key.take(5) == "edid:"@
                &&& key[9] == ':' && key[14] == ':' && key[23] == ':'
                &&& hex_value(key.subrange(5, 9)) == edid[8] * 256 + edid[9]
                &&& hex_value(key.subrange(10, 14)) == edid[10] + edid[11] * 256
                &&& hex_value(key.subrange(15, 23)) == edid[12] + 256 * (edid[13] + 256 * (edid[14]
                    + 256 * edid[15]))
                &&& hex_value(key.subrange(24, 40)) == native_policy::fingerprint(edid)
            }
        }),
        native_policy::stable_key(None, fallback) == fallback,
{
    let key = native_policy::stable_key(Some(edid), fallback);
    if edid.len() >= 16 {
        widths();
        reveal_strlit("edid:");
        reveal_strlit(":");
        let manufacturer = edid[8] * 256 + edid[9];
        let product = edid[11] * 256 + edid[10];
        let serial = edid[15] * 0x100_0000 + edid[14] * 0x1_0000 + edid[13] * 256 + edid[12];
        let print = native_policy::fingerprint(edid) as int;
        hexadecimal_reads_back(manufacturer, 4);
        hexadecimal_reads_back(product, 4);
        hexadecimal_reads_back(serial, 8);
        hexadecimal_reads_back(print, 16);
        assert(key.take(5) =~= "edid:"@);
        assert(key.subrange(5, 9) =~= text::hexadecimal(manufacturer, 4));
        assert(key.subrange(10, 14) =~= text::hexadecimal(product, 4));
        assert(key.subrange(15, 23) =~= text::hexadecimal(serial, 8));
        assert(key.subrange(24, 40) =~= text::hexadecimal(print, 16));
    }
}

/// An odd factor keeps numbers apart.
proof fn mixing_keeps_apart(a: u64, b: u64)
    requires
        a.wrapping_mul(0x100000001b3) == b.wrapping_mul(0x100000001b3),
    ensures
        a == b,
{
    let range = 0x1_0000_0000_0000_0000int;
    let p = 0x100000001b3int;
    let q = 0xce965057aff6957bint;
    let x = a as int;
    let y = b as int;
    assert((x * p) % range == (y * p) % range);
    lemma_mul_mod_noop_left(x * p, q, range);
    lemma_mul_mod_noop_left(y * p, q, range);
    let k = 0xce9650590fint;
    assert(p * q == k * range + 1);
    assert((x * p) * q == range * (x * k) + x) by (nonlinear_arith)
        requires
            p * q == k * range + 1,
    ;
    assert((y * p) * q == range * (y * k) + y) by (nonlinear_arith)
        requires
            p * q == k * range + 1,
    ;
    lemma_mod_multiples_vanish(x * k, x, range);
    lemma_mod_multiples_vanish(y * k, y, range);
}

/// Two monitors whose EDIDs differ in one byte, whichever it is, have different fingerprints.
pub proof fn fingerprints_differ(one: Seq<u8>, byte: u8, i: int)
    requires
        0 <= i < one.len(),
        one[i] != byte,
    ensures
        native_policy::fingerprint(one) != native_policy::fingerprint(one.update(i, byte)),
    decreases one.len(),
{
    let other = one.update(i, byte);
    let a = native_policy::fingerprint(one.drop_last());
    let b = native_policy::fingerprint(other.drop_last());
    let x = one.last() as u64;
    let y = other.last() as u64;
    if i == one.len() - 1 {
        assert(one.drop_last() =~= other.drop_last());
        assert(x != y ==> a ^ x != a ^ y) by (bit_vector);
    } else {
        assert(other.drop_last() =~= one.drop_last().update(i, byte));
        fingerprints_differ(one.drop_last(), byte, i);
        assert(a != b ==> a ^ x != b ^ x) by (bit_vector);
    }
    if native_policy::fingerprint(one) == native_policy::fingerprint(other) {
        mixing_keeps_apart(a ^ x, b ^ y);
    }
}

/// Whether a property holds an EDID that identifies a monitor.
pub open spec fn identifies(property: PropertyView, edid: Seq<u8>) -> bool {
    property matches PropertyView::Edid { blob, bytes } && blob != 0 && bytes == Some(edid)
        && edid.len() >= 16
}

/// Whether a property could not be read.
pub open spec fn unreadable(property: PropertyView) -> bool {
    property is Failed || (property matches PropertyView::Edid { blob, bytes } && blob != 0
        && bytes is None)
}

/// The EDID of a connector is the first that identifies a monitor, and all before it could be
/// read; where there is none, the first unreadable property comes before any such EDID.
pub proof fn edids_are_found_first(properties: Seq<PropertyView>, from: int)
    requires
        0 <= from <= properties.len(),
    ensures
        match native_policy::edid_among(properties, from) {
            Some(edid) => exists|i: int|
                from <= i < properties.len() && identifies(#[trigger] properties[i], edid)
                    && forall|j: int|
                    from <= j < i ==> !unreadable(#[trigger] properties[j]) && forall|other: Seq<u8>|
                        !identifies(properties[j], other),
            None => forall|i: int, edid: Seq<u8>|
                from <= i < properties.len() && #[trigger] identifies(properties[i], edid)
                    ==> exists|j: int| from <= j < i && unreadable(#[trigger] properties[j]),
        },
    decreases properties.len() - from,
{
    if from < properties.len() {
        edids_are_found_first(properties, from + 1);
        let all = native_policy::edid_among(properties, from);
        let rest = native_policy::edid_among(properties, from + 1);
        if let Some(edid) = all {
            if identifies(properties[from], edid) {
            } else {
                let i = choose|i: int|
                    from + 1 <= i < properties.len() && identifies(#[trigger] properties[i], edid)
                        && forall|j: int|
                        from + 1 <= j < i ==> !unreadable(#[trigger] properties[j]) && forall|
                            other: Seq<u8>,
                        | !identifies(properties[j], other);
                assert(identifies(properties[i], edid));
            }
        } else {
            assert forall|i: int, edid: Seq<u8>|
                from <= i < properties.len() && #[trigger] identifies(
                    properties[i],
                    edid,
                ) implies exists|j: int| from <= j < i && unreadable(#[trigger] properties[j]) by {
                if unreadable(properties[from]) {
                    assert(i != from);
                } else {
                    assert(rest is None);
                    assert(i != from);
                    let j = choose|j: int|
                        from + 1 <= j < i && unreadable(#[trigger] properties[j]);
                    assert(unreadable(properties[j]));
                }
            }
        }
    }
}

} // verus!
