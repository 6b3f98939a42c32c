//! Decisions of the native backend, on plain data: connectors are discovered and modes are set
//! elsewhere.

use crate::listing;
use crate::text;
use crate::text::{is_before, push_hexadecimal};
use vstd::prelude::*;

verus! {

#[derive(Clone, Copy, Debug, Eq, PartialEq, Structural)]
pub struct ModeCandidate {
    pub width: u16,
    pub height: u16,
    pub refresh_millihz: u32,
    pub preferred: bool,
}

impl ModeCandidate {
    pub open spec fn pixels(self) -> int {
        self.width * self.height
    }

    /// Whether a mode is a worse choice than another: not the preferred one, fewer pixels, or a
    /// lower refresh rate, in this order.
    pub open spec fn worse_than(self, other: Self) -> bool {
        if self.preferred != other.preferred {
            other.preferred
        } else if self.pixels() != other.pixels() {
            self.pixels() < other.pixels()
        } else {
            self.refresh_millihz < other.refresh_millihz
        }
    }

    fn is_worse_than(&self, other: &Self) -> (r: bool)
        ensures
            r == self.worse_than(*other),
    {
        let pixels: u64 = self.count_pixels();
        let other_pixels: u64 = other.count_pixels();
        if self.preferred != other.preferred {
            other.preferred
        } else if pixels != other_pixels {
            pixels < other_pixels
        } else {
            self.refresh_millihz < other.refresh_millihz
        }
    }

    fn count_pixels(&self) -> (r: u64)
        ensures
            r == self.pixels(),
    {
        assert(self.width * self.height <= 0xffff * 0xffff) by (nonlinear_arith)
            requires
                self.width <= 0xffff,
                self.height <= 0xffff,
        ;
        self.width as u64 * self.height as u64
    }
}

/// Whether the mode at a place is the one to select: none is better, and of equally good ones
/// it is the last.
pub open spec fn is_selected(modes: Seq<ModeCandidate>, i: int) -> bool {
    &&& 0 <= i < modes.len()
    &&& forall|j: int| 0 <= j < i ==> !modes[i].worse_than(#[trigger] modes[j])
    &&& forall|j: int| i < j < modes.len() ==> (#[trigger] modes[j]).worse_than(modes[i])
}

/// There is one mode to select at most.
pub proof fn selection_is_unique(modes: Seq<ModeCandidate>, i: int, j: int)
    requires
        is_selected(modes, i),
        is_selected(modes, j),
    ensures
        i == j,
{
    if i < j {
        assert(modes[j].worse_than(modes[i]));
        assert(!modes[j].worse_than(modes[i]));
    } else if j < i {
        assert(modes[i].worse_than(modes[j]));
        assert(!modes[i].worse_than(modes[j]));
    }
}

/// Where there are modes, there is one to select.
pub proof fn selection_exists(modes: Seq<ModeCandidate>) -> (i: int)
    requires
        modes.len() > 0,
    ensures
        is_selected(modes, i),
    decreases modes.len(),
{
    let before = modes.drop_last();
    let last = modes.len() - 1;
    if last == 0 {
        0
    } else {
        let best = selection_exists(before);
        assert(forall|j: int| 0 <= j < last ==> #[trigger] before[j] == modes[j]);
        if modes[last].worse_than(modes[best]) {
            assert forall|j: int| 0 <= j < best implies !modes[best].worse_than(
                #[trigger] modes[j],
            ) by {
                assert(before[j] == modes[j]);
            }
            assert forall|j: int| best < j < modes.len() implies (#[trigger] modes[j]).worse_than(
                modes[best],
            ) by {
                if j < last {
                    assert(before[j] == modes[j]);
                }
            }
            best
        } else {
            assert forall|j: int| 0 <= j < last implies !modes[last].worse_than(
                #[trigger] modes[j],
            ) by {
                assert(before[j] == modes[j]);
            }
            last
        }
    }
}

/// Selects a mode: the preferred one first, then by pixels and refresh rate.
pub fn select_mode(modes: &[ModeCandidate]) -> (r: Option<usize>)
    ensures
        match r {
            Some(i) => is_selected(modes@, i as int),
            None => modes@.len() == 0,
        },
{
    if modes.len() == 0 {
        return None;
    }
    let mut best: usize = 0;
    let mut i: usize = 1;
    while i < modes.len()
        invariant
            1 <= i <= modes@.len(),
            best < i,
            is_selected(modes@.take(i as int), best as int),
        decreases modes@.len() - i,
    {
        let ghost before = modes@.take(i as int);
        let ghost after = modes@.take(i + 1);
        assert forall|j: int| 0 <= j < i implies before[j] == after[j] by {}
        if !modes[i].is_worse_than(&modes[best]) {
            proof {
                assert forall|j: int| 0 <= j < i implies !after[i as int].worse_than(
                    #[trigger] after[j],
                ) by {
                    assert(before[j] == after[j]);
                    assert(before[best as int] == after[best as int]);
                }
            }
            best = i;
        } else {
            proof {
                assert(is_selected(after, best as int)) by {
                    assert forall|j: int| 0 <= j < best implies !after[best as int].worse_than(
                        #[trigger] after[j],
                    ) by {
                        assert(before[j] == after[j]);
                    }
                    assert forall|j: int| best < j < after.len() implies (
                    #[trigger] after[j]).worse_than(after[best as int]) by {
                        if j < i {
                            assert(before[j] == after[j]);
                        }
                    }
                }
            }
        }
        i = i + 1;
    }
    assert(modes@.take(i as int) =~= modes@);
    Some(best)
}

/// The FNV-1a hash of some bytes.
pub open spec fn fingerprint(bytes: Seq<u8>) -> u64
    decreases bytes.len(),
{
    if bytes.len() == 0 {
        0xcbf29ce484222325
    } else {
        (fingerprint(bytes.drop_last()) ^ (bytes.last() as u64)).wrapping_mul(0x100000001b3)
    }
}

/// What identifies a monitor by its EDID: manufacturer, product and serial number, and a
/// fingerprint of all of it.
pub open spec fn edid_key(edid: Seq<u8>) -> Seq<char> {
    "edid:"@ + text::hexadecimal(edid[8] * 256 + edid[9], 4) + ":"@ + text::hexadecimal(
        edid[11] * 256 + edid[10],
        4,
    ) + ":"@ + text::hexadecimal(
        edid[15] * 0x100_0000 + edid[14] * 0x1_0000 + edid[13] * 256 + edid[12],
        8,
    ) + ":"@ + text::hexadecimal(fingerprint(edid) as int, 16)
}

/// The bytes of an optional EDID.
pub open spec fn edid_bytes(edid: Option<Vec<u8>>) -> Option<Seq<u8>> {
    match edid {
        Some(edid) => Some(edid@),
        None => None,
    }
}

/// The stable key of an output: by its EDID where that is long enough to identify it, else
/// `fallback`.
pub open spec fn stable_key(edid: Option<Seq<u8>>, fallback: Seq<char>) -> Seq<char> {
    match edid {
        Some(edid) => if edid.len() >= 16 {
            edid_key(edid)
        } else {
            fallback
        },
        None => fallback,
    }
}

/// Builds the stable key of an output.
pub fn stable_output_key(edid: Option<&[u8]>, fallback: &str) -> (r: String)
    ensures
        r@ == stable_key(
            match edid {
                Some(edid) => Some(edid@),
                None => None,
            },
            fallback@,
        ),
{
    let edid: &[u8] = match edid {
        Some(edid) => {
            if edid.len() < 16 {
                return fallback.to_owned();
            }
            edid
        },
        None => {
            return fallback.to_owned();
        },
    };
    let manufacturer: u64 = edid[8] as u64 * 256 + edid[9] as u64;
    let product: u64 = edid[11] as u64 * 256 + edid[10] as u64;
    let serial: u64 = edid[15] as u64 * 0x100_0000 + edid[14] as u64 * 0x1_0000 + edid[13] as u64
        * 256 + edid[12] as u64;
    let mut hash: u64 = 0xcbf29ce484222325;
    let mut i: usize = 0;
    assert(edid@.take(0) =~= Seq::empty());
    while i < edid.len()
        invariant
            i <= edid@.len(),
            hash == fingerprint(edid@.take(i as int)),
        decreases edid@.len() - i,
    {
        assert(edid@.take(i + 1).drop_last() =~= edid@.take(i as int));
        hash = (hash ^ (edid[i] as u64)).wrapping_mul(0x100000001b3);
        i = i + 1;
    }
    assert(edid@.take(i as int) =~= edid@);
    let mut key: String = "edid:".to_owned();
    push_hexadecimal(&mut key, manufacturer, 4);
    key.append(":");
    push_hexadecimal(&mut key, product, 4);
    key.append(":");
    push_hexadecimal(&mut key, serial, 8);
    key.append(":");
    push_hexadecimal(&mut key, hash, 16);
    key
}

/// What is known of a connector.
#[derive(Debug, Eq, PartialEq)]
pub struct ConnectorSnapshot {
    pub connector: String,
    pub edid: Option<Vec<u8>>,
    pub modes: Vec<ModeCandidate>,
    pub non_desktop: bool,
}

#[verifier::ext_equal]
pub struct ConnectorView {
    pub connector: Seq<char>,
    pub edid: Option<Seq<u8>>,
    pub modes: Seq<ModeCandidate>,
    pub non_desktop: bool,
}

impl View for ConnectorSnapshot {
    type V = ConnectorView;

    open spec fn view(&self) -> ConnectorView {
        ConnectorView {
            connector: self.connector@,
            edid: edid_bytes(self.edid),
            modes: self.modes@,
            non_desktop: self.non_desktop,
        }
    }
}

impl Clone for ConnectorSnapshot {
    fn clone(&self) -> (r: Self)
        ensures
            r@ == self@,
    {
        let edid: Option<Vec<u8>> = match &self.edid {
            Some(edid) => {
                let copy: Vec<u8> = edid.clone();
                assert(copy@ =~= edid@);
                Some(copy)
            },
            None => None,
        };
        let modes: Vec<ModeCandidate> = self.modes.clone();
        assert(modes@ =~= self.modes@);
        ConnectorSnapshot {
            connector: self.connector.clone(),
            edid,
            modes,
            non_desktop: self.non_desktop,
        }
    }
}

/// An output that is to be set up.
#[derive(Debug, Eq, PartialEq)]
pub struct PlannedOutput {
    pub connector: String,
    pub stable_key: String,
    pub mode: ModeCandidate,
}

#[verifier::ext_equal]
pub struct PlannedView {
    pub connector: Seq<char>,
    pub stable_key: Seq<char>,
    pub mode: ModeCandidate,
}

impl View for PlannedOutput {
    type V = PlannedView;

    open spec fn view(&self) -> PlannedView {
        PlannedView {
            connector: self.connector@,
            stable_key: self.stable_key@,
            mode: self.mode,
        }
    }
}

impl ConnectorView {
    /// Whether the connector drives a part of the desktop.
    pub open spec fn usable(self) -> bool {
        !self.non_desktop && self.modes.len() > 0
    }

    /// The output that is planned for the connector.
    pub open spec fn planned(self) -> PlannedView {
        PlannedView {
            connector: self.connector,
            stable_key: stable_key(self.edid, self.connector),
            mode: self.modes[choose|i: int| is_selected(self.modes, i)],
        }
    }
}

/// An output in its place in a list that is ordered by connector, behind those of the same
/// connector.
pub open spec fn placed(list: Seq<PlannedView>, output: PlannedView) -> Seq<PlannedView>
    decreases list.len(),
{
    if list.len() == 0 {
        seq![output]
    } else if text::comes_before(output.connector, list.last().connector) {
        placed(list.drop_last(), output).push(list.last())
    } else {
        list.push(output)
    }
}

/// The outputs that are planned for some connectors, ordered by connector.
pub open spec fn plan(connectors: Seq<ConnectorView>) -> Seq<PlannedView>
    decreases connectors.len(),
{
    if connectors.len() == 0 {
        Seq::empty()
    } else {
        let rest = plan(connectors.drop_last());
        if connectors.last().usable() {
            placed(rest, connectors.last().planned())
        } else {
            rest
        }
    }
}

pub open spec fn connector_views(list: Seq<ConnectorSnapshot>) -> Seq<ConnectorView> {
    Seq::new(list.len(), |i: int| list[i]@)
}

pub open spec fn planned_views(list: Seq<PlannedOutput>) -> Seq<PlannedView> {
    Seq::new(list.len(), |i: int| list[i]@)
}

/// Puts an output into its place in a list that is ordered by connector.
fn place_output(list: &mut Vec<PlannedOutput>, output: PlannedOutput)
    ensures
        planned_views(final(list)@) == placed(planned_views(old(list)@), output@),
{
    let ghost before = planned_views(list@);
    let ghost item = output@;
    let mut at: usize = list.len();
    assert(before.take(at as int) =~= before);
    assert(placed(before, item) =~= placed(before.take(at as int), item) + before.skip(at as int));
    while at > 0 && is_before(&output.connector, &list[at - 1].connector)
        invariant
            at <= list@.len(),
            before == planned_views(list@),
            item == output@,
            placed(before, item) == placed(before.take(at as int), item) + before.skip(at as int),
        decreases at,
    {
        proof {
            let head = before.take(at as int);
            assert(head.drop_last() =~= before.take(at - 1));
            assert(head.last() == list@[at - 1]@);
            assert(placed(head, item) == placed(before.take(at - 1), item).push(head.last()));
            assert(placed(before.take(at - 1), item).push(head.last()) + before.skip(at as int)
                =~= placed(before.take(at - 1), item) + before.skip(at - 1));
        }
        at = at - 1;
    }
    proof {
        let head = before.take(at as int);
        if at > 0 {
            assert(head.last() == list@[at - 1]@);
        }
        assert(placed(head, item) =~= head.push(item));
    }
    let ghost old_list = list@;
    list.insert(at, output);
    proof {
        assert(planned_views(list@) =~= before.take(at as int).push(item) + before.skip(
            at as int,
        ));
    }
}

/// The outputs that are planned for some connectors: those that drive a part of the desktop and
/// have a mode, each with the mode that is selected and a stable key, ordered by connector.
pub fn plan_outputs(connectors: &Vec<ConnectorSnapshot>) -> (r: Vec<PlannedOutput>)
    ensures
        planned_views(r@) == plan(connector_views(connectors@)),
{
    let ghost all = connector_views(connectors@);
    let mut planned: Vec<PlannedOutput> = Vec::new();
    let mut i: usize = 0;
    assert(planned_views(planned@) =~= plan(all.take(0)));
    while i < connectors.len()
        invariant
            i <= connectors@.len(),
            all == connector_views(connectors@),
            planned_views(planned@) == plan(all.take(i as int)),
        decreases connectors@.len() - i,
    {
        let connector: &ConnectorSnapshot = &connectors[i];
        proof {
            assert(all.take(i + 1).drop_last() =~= all.take(i as int));
            assert(all.take(i + 1).last() == connector@);
        }
        if !connector.non_desktop {
            match select_mode(connector.modes.as_slice()) {
                Some(selected) => {
                    proof {
                        let other = choose|j: int| is_selected(connector@.modes, j);
                        assert(is_selected(connector@.modes, selected as int));
                        selection_is_unique(connector@.modes, selected as int, other);
                    }
                    let edid: Option<&[u8]> = match &connector.edid {
                        Some(edid) => Some(edid.as_slice()),
                        None => None,
                    };
                    let output = PlannedOutput {
                        connector: connector.connector.clone(),
                        stable_key: stable_output_key(edid, connector.connector.as_str()),
                        mode: connector.modes[selected],
                    };
                    place_output(&mut planned, output);
                },
                None => {},
            }
        }
        i = i + 1;
    }
    assert(all.take(i as int) =~= all);
    planned
}

/// A device that knows its connectors.
pub trait NativeDeviceIo {
    type Error;

    fn connector_snapshots(&self) -> Result<Vec<ConnectorSnapshot>, Self::Error>;
}

/// Connectors whose data have been copied from a device.
pub struct SnapshotSource(pub Vec<ConnectorSnapshot>);

impl NativeDeviceIo for SnapshotSource {
    type Error = std::convert::Infallible;

    fn connector_snapshots(&self) -> (r: Result<Vec<ConnectorSnapshot>, std::convert::Infallible>)
        ensures
            r is Ok,
            connector_views(r->Ok_0@) == connector_views(self.0@),
    {
        let mut copies: Vec<ConnectorSnapshot> = Vec::new();
        let mut i: usize = 0;
        while i < self.0.len()
            invariant
                i <= self.0@.len(),
                connector_views(copies@) == connector_views(self.0@).take(i as int),
            decreases self.0@.len() - i,
        {
            let ghost before = copies@;
            copies.push(self.0[i].clone());
            i = i + 1;
            proof {
                assert(connector_views(copies@) =~= connector_views(before).push(
                    self.0@[i - 1]@,
                ));
                assert(connector_views(copies@) =~= connector_views(self.0@).take(i as int));
            }
        }
        assert(connector_views(copies@) =~= connector_views(self.0@));
        Ok(copies)
    }
}

/// Plans the outputs of a device, or fails as the device does.
pub fn scan_outputs<I: NativeDeviceIo>(io: &I) -> (r: Result<Vec<PlannedOutput>, I::Error>)
    ensures
        match r {
            Ok(planned) => exists|connectors: Vec<ConnectorSnapshot>|
                call_ensures(I::connector_snapshots, (io,), Ok(connectors)) && planned_views(
                    planned@,
                ) == plan(#[trigger] connector_views(connectors@)),
            Err(error) => call_ensures(I::connector_snapshots, (io,), Err(error)),
        },
{
    match io.connector_snapshots() {
        Ok(connectors) => Ok(plan_outputs(&connectors)),
        Err(error) => Err(error),
    }
}

/// Whether a list is ordered by connector.
pub open spec fn ordered(list: Seq<PlannedView>) -> bool {
    forall|i: int, j: int|
        0 <= i < j < list.len() ==> !text::comes_before(
            (#[trigger] list[j]).connector,
            (#[trigger] list[i]).connector,
        )
}

proof fn placing_orders(list: Seq<PlannedView>, output: PlannedView)
    requires
        ordered(list),
    ensures
        ordered(placed(list, output)),
        placed(list, output).len() == list.len() + 1,
        forall|i: int|
            0 <= i < placed(list, output).len() ==> (#[trigger] placed(list, output)[i]) == output
                || list.contains(placed(list, output)[i]),
    decreases list.len(),
{
    let after = placed(list, output);
    if list.len() > 0 {
        let rest = list.drop_last();
        let last = list.last();
        if text::comes_before(output.connector, last.connector) {
            placing_orders(rest, output);
            let head = placed(rest, output);
            assert forall|i: int| 0 <= i < after.len() implies (#[trigger] after[i]) == output
                || list.contains(after[i]) by {
                if i < head.len() {
                    assert(after[i] == head[i]);
                    if head[i] != output {
                        let k = choose|k: int| 0 <= k < rest.len() && rest[k] == head[i];
                        assert(list[k] == head[i]);
                    }
                } else {
                    assert(list[list.len() - 1] == after[i]);
                }
            }
            assert forall|i: int, j: int| 0 <= i < j < after.len() implies !text::comes_before(
                (#[trigger] after[j]).connector,
                (#[trigger] after[i]).connector,
            ) by {
                if j < head.len() {
                    assert(after[i] == head[i] && after[j] == head[j]);
                } else {
                    assert(after[i] == head[i]);
                    if head[i] == output {
                        order_has_one_way(output.connector, last.connector);
                    } else {
                        let k = choose|k: int| 0 <= k < rest.len() && rest[k] == head[i];
                        assert(list[k] == head[i]);
                    }
                }
            }
        } else {
            assert forall|i: int| 0 <= i < after.len() implies (#[trigger] after[i]) == output
                || list.contains(after[i]) by {
                if i < list.len() {
                    assert(after[i] == list[i]);
                }
            }
            assert forall|i: int, j: int| 0 <= i < j < after.len() implies !text::comes_before(
                (#[trigger] after[j]).connector,
                (#[trigger] after[i]).connector,
            ) by {
                assert(after[i] == list[i]);
                if j == list.len() {
                    if text::comes_before(output.connector, list[i].connector) && i < list.len()
                        - 1 {
                        assert(!text::comes_before(
                            list[list.len() - 1].connector,
                            list[i].connector,
                        ));
                        text::order_is_transitive(
                            output.connector,
                            list[i].connector,
                            last.connector,
                        );
                    }
                }
            }
        }
    }
}

/// No two texts come before each other.
proof fn order_has_one_way(a: Seq<char>, b: Seq<char>)
    ensures
        !(text::comes_before(a, b) && text::comes_before(b, a)),
    decreases a.len(),
{
    if a.len() > 0 && b.len() > 0 && a[0] == b[0] {
        order_has_one_way(a.drop_first(), b.drop_first());
    }
}

/// Whether an output is planned for a usable one of some connectors.
pub open spec fn accounted(connectors: Seq<ConnectorView>, output: PlannedView) -> bool {
    exists|c: int|
        0 <= c < connectors.len() && (#[trigger] connectors[c]).usable()
            && connectors[c].planned() == output
}

/// A plan is ordered by connector, and every output of it is that of a usable connector.
pub proof fn plans_are_ordered(connectors: Seq<ConnectorView>)
    ensures
        ordered(plan(connectors)),
        forall|i: int|
            0 <= i < plan(connectors).len() ==> accounted(connectors, #[trigger] plan(connectors)[i]),
    decreases connectors.len(),
{
    if connectors.len() > 0 {
        let rest = connectors.drop_last();
        let list = plan(rest);
        let all = plan(connectors);
        plans_are_ordered(rest);
        if connectors.last().usable() {
            placing_orders(list, connectors.last().planned());
        }
        assert forall|i: int| 0 <= i < all.len() implies accounted(
            connectors,
            #[trigger] all[i],
        ) by {
            if connectors.last().usable() && all[i] == connectors.last().planned() {
                assert(connectors[connectors.len() - 1].usable());
            } else {
                assert(list.contains(all[i])) by {
                    if !connectors.last().usable() {
                        assert(list[i] == all[i]);
                    }
                }
                let k = choose|k: int| 0 <= k < list.len() && list[k] == all[i];
                let c = choose|c: int|
                    0 <= c < rest.len() && (#[trigger] rest[c]).usable() && rest[c].planned()
                        == list[k];
                assert(connectors[c].usable());
            }
        }
    }
}

/// A monitor with a full EDID has the same key on whichever connector it is found.
pub proof fn edid_identifies(edid: Seq<u8>, one: Seq<char>, other: Seq<char>)
    requires
        edid.len() >= 16,
    ensures
        stable_key(Some(edid), one) == stable_key(Some(edid), other),
{
}

/// What was read of a property of a connector.
#[derive(Debug, Eq, PartialEq)]
pub enum PropertyRead {
    /// It could not be read.
    Failed,
    /// It holds no EDID.
    Other,
    /// It is that of the EDID, which is kept under a number; the bytes, if they could be read.
    Edid { blob: u64, bytes: Option<Vec<u8>> },
}

pub enum PropertyView {
    Failed,
    Other,
    Edid { blob: u64, bytes: Option<Seq<u8>> },
}

impl View for PropertyRead {
    type V = PropertyView;

    open spec fn view(&self) -> PropertyView {
        match self {
            PropertyRead::Failed => PropertyView::Failed,
            PropertyRead::Other => PropertyView::Other,
            PropertyRead::Edid { blob, bytes } => PropertyView::Edid {
                blob: *blob,
                bytes: match bytes {
                    Some(bytes) => Some(bytes@),
                    None => None,
                },
            },
        }
    }
}

/// The EDID among the properties from a place on: the first that is kept under a number and long
/// enough. What cannot be read ends the search.
pub open spec fn edid_among(properties: Seq<PropertyView>, from: int) -> Option<Seq<u8>>
    decreases properties.len() - from,
{
    if from < 0 || from >= properties.len() {
        None
    } else {
        match properties[from] {
            PropertyView::Failed => None,
            PropertyView::Other => edid_among(properties, from + 1),
            PropertyView::Edid { blob, bytes } => if blob == 0 {
                edid_among(properties, from + 1)
            } else {
                match bytes {
                    None => None,
                    Some(bytes) => if bytes.len() < 16 {
                        edid_among(properties, from + 1)
                    } else {
                        Some(bytes)
                    },
                }
            },
        }
    }
}

/// The EDID among the properties of a connector.
pub fn choose_edid(properties: &Vec<PropertyRead>) -> (r: Option<&Vec<u8>>)
    ensures
        match r {
            Some(bytes) => edid_among(listing::each(properties@), 0) == Some(bytes@),
            None => edid_among(listing::each(properties@), 0) is None,
        },
{
    let ghost all = listing::each(properties@);
    let mut i: usize = 0;
    while i < properties.len()
        invariant
            i <= properties@.len(),
            all == listing::each(properties@),
            edid_among(all, 0) == edid_among(all, i as int),
        decreases properties@.len() - i,
    {
        assert(all[i as int] == properties@[i as int]@);
        match &properties[i] {
            PropertyRead::Failed => {
                return None;
            },
            PropertyRead::Other => {},
            PropertyRead::Edid { blob, bytes } => {
                if *blob != 0 {
                    match bytes {
                        None => {
                            return None;
                        },
                        Some(bytes) => {
                            if bytes.len() >= 16 {
                                return Some(bytes);
                            }
                        },
                    }
                }
            },
        }
        i = i + 1;
    }
    None
}

/// The place of a mode in the list that it was selected from.
pub fn mode_place(modes: &[ModeCandidate], mode: ModeCandidate) -> (r: Option<usize>)
    ensures
        match r {
            Some(i) => i < modes@.len() && modes@[i as int] == mode && forall|j: int|
                0 <= j < i ==> modes@[j] != mode,
            None => !modes@.contains(mode),
        },
{
    let mut i: usize = 0;
    while i < modes.len()
        invariant
            i <= modes@.len(),
            forall|j: int| 0 <= j < i ==> modes@[j] != mode,
        decreases modes@.len() - i,
    {
        if modes[i] == mode {
            return Some(i);
        }
        i = i + 1;
    }
    None
}

} // verus!
