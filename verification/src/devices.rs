//! Listing the video capture devices of a machine.
use crate::camera::{captures_video, Camera, Capabilities, DeviceInfo, DeviceModel, VIDEO_CAPTURE};
use crate::text::{
    append_decimal, decimal, decimal_notation_is_faithful, decimal_value, is_digit,
    lemma_prefix_value, same_text, texts,
};
use vstd::prelude::*;

verus! {

/// What looking at one device node gave.
#[derive(Debug)]
pub enum DeviceProbe {
    /// There is no such node.
    Absent,
    /// The node could not be opened.
    Unopenable,
    /// The device did not say what it can do.
    Unreadable,
    /// The device answered.
    Answered(Capabilities),
}

/// What a probe says of a device that captures video: name, driver and bus.
pub ghost struct CaptureDevice {
    pub name: Seq<char>,
    pub driver: Seq<char>,
    pub bus: Seq<char>,
}

impl View for DeviceProbe {
    type V = Option<CaptureDevice>;

    open spec fn view(&self) -> Option<CaptureDevice> {
        match self {
            DeviceProbe::Answered(caps) if captures_video(caps.flags) => Some(
                CaptureDevice { name: caps.card@, driver: caps.driver@, bus: caps.bus@ },
            ),
            _ => None,
        }
    }
}

/// The name of device node `n`.
pub open spec fn node_name(n: u32) -> Seq<char> {
    "video"@ + decimal(n as nat)
}

/// The path of device node `n`.
pub open spec fn node_path(n: u32) -> Seq<char> {
    "/dev/video"@ + decimal(n as nat)
}

/// Whether numbers ascend, each once.
pub open spec fn ascends(nodes: Seq<u32>) -> bool {
    forall|i: int, j: int| 0 <= i < j < nodes.len() ==> nodes[i] < nodes[j]
}

/// Whether one of the names is that of node `n`.
pub open spec fn is_named(names: Seq<Seq<char>>, n: u32) -> bool {
    exists|i: int| 0 <= i < names.len() && #[trigger] names[i] == node_name(n)
}

/// The number of the node with this name, if it is the name of a node.
pub fn node_number(name: &str) -> (number: Option<u32>)
    ensures
        match number {
            Some(n) => name@ == node_name(n),
            None => forall|n: u32| name@ != #[trigger] node_name(n),
        },
{
    proof {
        reveal_strlit("video");
    }
    let ghost digits = name@.skip(5);
    let len: usize = name.unicode_len();
    let mut value: u64 = 0;
    let mut i: usize = 5;
    while i < len
        invariant
            5 <= i,
            len == name@.len(),
            digits == name@.skip(5),
            i <= len || len < 5,
            len >= 5 ==> value == decimal_value(digits.take(i - 5)),
            value <= u32::MAX,
            "video"@.len() == 5,
        decreases len - i,
    {
        let d: u32 = name.get_char(i) as u32;
        proof {
            let longer = digits.take(i - 4);
            assert(longer.drop_last() =~= digits.take(i - 5));
            assert(longer.last() == name@[i as int]);
            assert forall|n: u32| name@ == #[trigger] node_name(n) implies is_digit(name@[i as int])
                && decimal_value(longer) <= n by {
                decimal_notation_is_faithful(n as nat);
                assert(digits =~= decimal(n as nat));
                assert(digits[i - 5] == name@[i as int]);
                lemma_prefix_value(digits, i - 4);
            }
        }
        if d < 48 || d > 57 {
            return None;
        }
        value = 10 * value + (d - 48) as u64;
        if value > 0xffff_ffff {
            return None;
        }
        i = i + 1;
    }
    let number: u32 = value as u32;
    let mut written: String = "video".to_owned();
    append_decimal(&mut written, number as u64);
    if same_text(name, written.as_str()) {
        Some(number)
    } else {
        proof {
            assert forall|n: u32| name@ != #[trigger] node_name(n) by {
                if name@ == node_name(n) {
                    decimal_notation_is_faithful(n as nat);
                    assert(digits =~= decimal(n as nat));
                    assert(digits.take(len - 5) =~= digits);
                }
            }
        }
        None
    }
}

/// The nodes among the names of a directory, in ascending order.
pub fn video_nodes(names: &Vec<String>) -> (nodes: Vec<u32>)
    ensures
        ascends(nodes@),
        forall|n: u32| nodes@.contains(n) <==> #[trigger] is_named(texts(names@), n),
        forall|i: int, j: int| 0 <= i < j < nodes@.len() ==> nodes@[i] < nodes@[j],
        forall|i: int, n: u32|
            0 <= i < names@.len() && (#[trigger] names@[i])@ == #[trigger] node_name(n)
                ==> nodes@.contains(n),
{
    let mut nodes: Vec<u32> = Vec::new();
    let mut i: usize = 0;
    while i < names.len()
        invariant
            i <= names.len(),
            ascends(nodes@),
            forall|n: u32|
                nodes@.contains(n) <==> #[trigger] is_named(texts(names@).take(i as int), n),
        decreases names.len() - i,
    {
        let ghost before = texts(names@).take(i as int);
        let ghost now = texts(names@).take(i + 1);
        let ghost had = nodes@;
        let number: Option<u32> = node_number(names[i].as_str());
        if let Some(n) = number {
            insert(&mut nodes, n);
        }
        proof {
            assert(now =~= before.push(names@[i as int]@));
            assert forall|n: u32| nodes@.contains(n) <==> #[trigger] is_named(now, n) by {
                if is_named(before, n) {
                    let k = choose|k: int|
                        0 <= k < before.len() && #[trigger] before[k] == node_name(n);
                    assert(now[k] == node_name(n));
                }
                if is_named(now, n) && !is_named(before, n) {
                    let k = choose|k: int| 0 <= k < now.len() && #[trigger] now[k] == node_name(n);
                    if k < before.len() {
                        assert(before[k] == node_name(n));
                    }
                    lemma_names_differ(n, number->0);
                }
                if number == Some(n) {
                    assert(now[before.len() as int] == node_name(n));
                }
                assert(nodes@.contains(n) <==> had.contains(n) || number == Some(n));
            }
        }
        i = i + 1;
    }
    proof {
        assert(texts(names@).take(i as int) =~= texts(names@));
        assert forall|k: int, n: u32|
            0 <= k < names@.len() && (#[trigger] names@[k])@ == #[trigger] node_name(
                n,
            ) implies nodes@.contains(n) by {
            assert(texts(names@)[k] == node_name(n));
            assert(is_named(texts(names@), n));
        }
    }
    nodes
}

/// No two nodes share a name or a path.
proof fn lemma_names_differ(a: u32, b: u32)
    ensures
        node_name(a) == node_name(b) ==> a == b,
        node_path(a) == node_path(b) ==> a == b,
{
    decimal_notation_is_faithful(a as nat);
    decimal_notation_is_faithful(b as nat);
    assert(node_name(a).skip("video"@.len() as int) =~= decimal(a as nat));
    assert(node_name(b).skip("video"@.len() as int) =~= decimal(b as nat));
    assert(node_path(a).skip("/dev/video"@.len() as int) =~= decimal(a as nat));
    assert(node_path(b).skip("/dev/video"@.len() as int) =~= decimal(b as nat));
}

/// Adds a number in its place, unless it is there.
fn insert(nodes: &mut Vec<u32>, n: u32)
    requires
        ascends(old(nodes)@),
    ensures
        ascends(final(nodes)@),
        forall|m: u32| final(nodes)@.contains(m) <==> old(nodes)@.contains(m) || m == n,
{
    let ghost had = nodes@;
    let mut at: usize = 0;
    while at < nodes.len() && nodes[at] < n
        invariant
            nodes@ == had,
            at <= nodes.len(),
            forall|k: int| 0 <= k < at ==> nodes@[k] < n,
        decreases nodes.len() - at,
    {
        at = at + 1;
    }
    if at < nodes.len() && nodes[at] == n {
        return ;
    }
    nodes.insert(at, n);
    proof {
        let now = nodes@;
        assert(now == had.insert(at as int, n));
        assert forall|m: u32| now.contains(m) <==> had.contains(m) || m == n by {
            if had.contains(m) {
                let k = had.index_of(m);
                if k < at {
                    assert(now[k] == m);
                } else {
                    assert(now[k + 1] == m);
                }
            }
            if m == n {
                assert(now[at as int] == n);
            }
            if now.contains(m) && m != n {
                let k = now.index_of(m);
                if k < at {
                    assert(had[k] == m);
                } else {
                    assert(had[k - 1] == m);
                }
            }
        }
    }
}

/// What a scan lists for a capture device at node `n`.
pub open spec fn entry(n: u32, device: CaptureDevice) -> DeviceModel {
    DeviceModel { path: node_path(n), name: device.name, driver: device.driver, bus: device.bus }
}

/// The devices that a scan lists for what its probes gave, node by node.
pub open spec fn listed(nodes: Seq<u32>, probes: Seq<Option<CaptureDevice>>) -> Seq<DeviceModel>
    decreases probes.len(),
{
    if probes.len() == 0 {
        Seq::empty()
    } else {
        let before = listed(nodes, probes.drop_last());
        match probes.last() {
            Some(device) => before.push(entry(nodes[probes.len() - 1], device)),
            None => before,
        }
    }
}

/// What a list of devices holds.
pub open spec fn device_models(devices: Seq<DeviceInfo>) -> Seq<DeviceModel> {
    devices.map_values(|d: DeviceInfo| d@)
}

/// A scan over device nodes.
pub struct DeviceScan {
    nodes: Vec<u32>,
    next: usize,
    devices: Vec<DeviceInfo>,
    probes: Ghost<Seq<Option<CaptureDevice>>>,
}

impl DeviceScan {
    /// The nodes to look at, in order.
    pub closed spec fn nodes(&self) -> Seq<u32> {
        self.nodes@
    }

    /// What the probes gave so far.
    pub closed spec fn probes(&self) -> Seq<Option<CaptureDevice>> {
        self.probes@
    }

    /// The devices found are those that the probes gave.
    pub closed spec fn wf(&self) -> bool {
        &&& self.next == self.probes@.len()
        &&& self.next <= self.nodes@.len()
        &&& device_models(self.devices@) == listed(self.nodes@, self.probes@)
    }

    /// The path of the node to look at next, until every node was looked at.
    pub fn next_path(&self) -> (path: Option<String>)
        requires
            self.wf(),
        ensures
            match path {
                Some(p) => self.probes().len() < self.nodes().len() && p@ == node_path(
                    self.nodes()[self.probes().len() as int],
                ),
                None => self.probes().len() == self.nodes().len(),
            },
    {
        if self.next < self.nodes.len() {
            let mut path: String = "/dev/video".to_owned();
            append_decimal(&mut path, self.nodes[self.next] as u64);
            Some(path)
        } else {
            None
        }
    }

    /// Records what looking at the next node gave. Nodes that are gone, unreadable
    /// or no capture devices are passed over, and do not stop the scan.
    pub fn probed(&mut self, probe: DeviceProbe)
        requires
            old(self).wf(),
            old(self).probes().len() < old(self).nodes().len(),
        ensures
            final(self).wf(),
            final(self).nodes() == old(self).nodes(),
            final(self).probes() == old(self).probes().push(probe@),
    {
        let ghost before = self.probes@;
        let ghost seen = before.push(probe@);
        proof {
            assert(seen.drop_last() =~= before);
            assert(self.next < self.nodes.len());
        }
        let ghost had = self.devices@;
        match probe {
            DeviceProbe::Answered(caps) => {
                if caps.flags % 2 == VIDEO_CAPTURE {
                    let mut path: String = "/dev/video".to_owned();
                    append_decimal(&mut path, self.nodes[self.next] as u64);
                    let info: DeviceInfo = DeviceInfo {
                        path,
                        name: caps.card,
                        driver: caps.driver,
                        bus: caps.bus,
                    };
                    proof {
                        assert(device_models(had.push(info)) =~= device_models(had).push(info@));
                    }
                    self.devices.push(info);
                }
            },
            _ => {},
        }
        self.probes = Ghost(seen);
        self.next = self.next + 1;
    }

    /// The devices found, in the order of their nodes.
    pub fn finish(self) -> (devices: Vec<DeviceInfo>)
        requires
            self.wf(),
        ensures
            device_models(devices@) == listed(self.nodes(), self.probes()),
            devices@.len() == listed(self.nodes(), self.probes()).len(),
            forall|i: int|
                0 <= i < devices@.len() ==> (#[trigger] devices@[i])@ == listed(
                    self.nodes(),
                    self.probes(),
                )[i],
    {
        proof {
            let models = device_models(self.devices@);
            assert(models.len() == self.devices@.len());
            assert forall|i: int| 0 <= i < models.len() implies (#[trigger] self.devices@[i])@
                == models[i] by {}
        }
        self.devices
    }
}

impl Camera {
    /// Starts listing the available video capture devices among the machine's device
    /// nodes.
    pub fn list_devices(nodes: Vec<u32>) -> (scan: DeviceScan)
        ensures
            scan.wf(),
            scan.nodes() == nodes@,
            scan.probes().len() == 0,
    {
        let scan: DeviceScan = DeviceScan {
            nodes,
            next: 0,
            devices: Vec::new(),
            probes: Ghost(Seq::empty()),
        };
        proof {
            assert(device_models(scan.devices@) =~= listed(scan.nodes@, scan.probes@));
        }
        scan
    }
}

/// Whether `listing` is what a scan lists for its `i`th node.
pub open spec fn is_entry(
    nodes: Seq<u32>,
    probes: Seq<Option<CaptureDevice>>,
    i: int,
    listing: DeviceModel,
) -> bool {
    0 <= i < probes.len() && probes[i] is Some && listing == entry(nodes[i], probes[i]->0)
}

/// Whether `listing` is what a scan lists for one of its nodes.
pub open spec fn is_accounted_for(
    nodes: Seq<u32>,
    probes: Seq<Option<CaptureDevice>>,
    listing: DeviceModel,
) -> bool {
    exists|i: int| is_entry(nodes, probes, i, listing)
}

/// A scan lists every node whose device answered and captures video, and
/// nothing else.
pub proof fn scans_list_the_capture_devices(
    nodes: Seq<u32>,
    probes: Seq<Option<CaptureDevice>>,
)
    ensures
        forall|i: int|
            0 <= i < probes.len() && (#[trigger] probes[i]) is Some ==> listed(
                nodes,
                probes,
            ).contains(entry(nodes[i], probes[i]->0)),
        forall|k: int|
            0 <= k < listed(nodes, probes).len() ==> is_accounted_for(
                nodes,
                probes,
                #[trigger] listed(nodes, probes)[k],
            ),
    decreases probes.len(),
{
    if probes.len() > 0 {
        let prefix = probes.drop_last();
        scans_list_the_capture_devices(nodes, prefix);
        let before = listed(nodes, prefix);
        let now = listed(nodes, probes);
        assert forall|i: int|
            0 <= i < probes.len() && (#[trigger] probes[i]) is Some implies now.contains(
            entry(nodes[i], probes[i]->0),
        ) by {
            let e = entry(nodes[i], probes[i]->0);
            if i < prefix.len() {
                assert(prefix[i] == probes[i]);
                assert(before.contains(e));
                let k = before.index_of(e);
                assert(now[k] == e);
            } else {
                assert(now.last() == e);
            }
        }
        assert forall|k: int| 0 <= k < now.len() implies is_accounted_for(
            nodes,
            probes,
            #[trigger] now[k],
        ) by {
            if k < before.len() {
                assert(now[k] == before[k]);
                let i = choose|i: int| is_entry(nodes, prefix, i, before[k]);
                assert(is_entry(nodes, probes, i, now[k]));
            } else {
                assert(is_entry(nodes, probes, probes.len() - 1, now[k]));
            }
        }
    }
}

/// The numbers of the nodes that a scan lists.
pub open spec fn listed_nodes(nodes: Seq<u32>, probes: Seq<Option<CaptureDevice>>) -> Seq<u32>
    decreases probes.len(),
{
    if probes.len() == 0 {
        Seq::empty()
    } else {
        let before = listed_nodes(nodes, probes.drop_last());
        match probes.last() {
            Some(_) => before.push(nodes[probes.len() - 1]),
            None => before,
        }
    }
}

/// A scan over ascending nodes lists their devices in ascending order, each path
/// once.
pub proof fn listings_ascend(nodes: Seq<u32>, probes: Seq<Option<CaptureDevice>>)
    requires
        ascends(nodes),
        probes.len() <= nodes.len(),
    ensures
        listed(nodes, probes).len() == listed_nodes(nodes, probes).len(),
        forall|k: int|
            0 <= k < listed(nodes, probes).len() ==> (#[trigger] listed(nodes, probes)[k]).path
                == node_path(listed_nodes(nodes, probes)[k]),
        ascends(listed_nodes(nodes, probes)),
        forall|j: int, k: int|
            0 <= j < k < listed(nodes, probes).len() ==> (#[trigger] listed(nodes, probes)[j]).path
                != (#[trigger] listed(nodes, probes)[k]).path,
{
    lemma_listings_ascend(nodes, probes);
    let paths = listed(nodes, probes);
    let numbers = listed_nodes(nodes, probes);
    assert forall|j: int, k: int| 0 <= j < k < paths.len() implies (#[trigger] paths[j]).path != (
    #[trigger] paths[k]).path by {
        lemma_names_differ(numbers[j], numbers[k]);
    }
}

/// The numbers listed ascend, below the next node.
proof fn lemma_listings_ascend(nodes: Seq<u32>, probes: Seq<Option<CaptureDevice>>)
    requires
        ascends(nodes),
        probes.len() <= nodes.len(),
    ensures
        listed(nodes, probes).len() == listed_nodes(nodes, probes).len(),
        forall|k: int|
            0 <= k < listed(nodes, probes).len() ==> (#[trigger] listed(nodes, probes)[k]).path
                == node_path(listed_nodes(nodes, probes)[k]),
        ascends(listed_nodes(nodes, probes)),
        forall|k: int, i: int|
            0 <= k < listed_nodes(nodes, probes).len() && probes.len() <= i < nodes.len()
                ==> #[trigger] listed_nodes(nodes, probes)[k] < #[trigger] nodes[i],
    decreases probes.len(),
{
    if probes.len() > 0 {
        lemma_listings_ascend(nodes, probes.drop_last());
    }
}

/// A listing grows node by node: a node whose device captures video adds that device,
/// with its path, its name, its driver and its bus, and any other node adds nothing.
pub proof fn listings_grow_node_by_node(
    nodes: Seq<u32>,
    probes: Seq<Option<CaptureDevice>>,
    device: CaptureDevice,
)
    ensures
        listed(nodes, Seq::empty()).len() == 0,
        listed(nodes, probes.push(None)) == listed(nodes, probes),
        listed(nodes, probes.push(Some(device))) == listed(nodes, probes).push(
            DeviceModel {
                path: "/dev/"@ + node_name(nodes[probes.len() as int]),
                name: device.name,
                driver: device.driver,
                bus: device.bus,
            },
        ),
{
    assert(probes.push(None).drop_last() =~= probes);
    assert(probes.push(Some(device)).drop_last() =~= probes);
    reveal_strlit("/dev/video");
    reveal_strlit("/dev/");
    reveal_strlit("video");
    let n = nodes[probes.len() as int];
    assert(node_path(n) =~= "/dev/"@ + node_name(n));
}

/// The name of a node is the word and its number.
pub proof fn nodes_are_named_by_their_numbers(n: u32)
    ensures
        "video"@.len() == 5,
        node_name(n).take(5) == "video"@,
        node_name(n).skip(5) == decimal(n as nat),
        node_path(n) == "/dev/"@ + node_name(n),
{
    reveal_strlit("/dev/video");
    reveal_strlit("/dev/");
    reveal_strlit("video");
    assert(node_name(n).take(5) =~= "video"@);
    assert(node_name(n).skip(5) =~= decimal(n as nat));
    assert(node_path(n) =~= "/dev/"@ + node_name(n));
}

} // verus!
