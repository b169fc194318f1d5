//! The telemetry snapshot: plain readings in, formatted summaries out.
//!
//! A snapshot is rebuilt from scratch on every invocation; nothing here is
//! cached or carried across calls.

use vstd::prelude::*;

use crate::numfmt::dec_str;
use crate::numfmt::u64_to_string;

verus! {

/// Bytes in one megabyte; memory figures are truncated to this unit.
pub const BYTES_PER_MB: u64 = 1048576;

/// Bytes in one gigabyte; disk figures are truncated to this unit.
pub const BYTES_PER_GB: u64 = 1073741824;

/// One logical CPU core as the host reports it.
pub struct CpuReading {
    pub name: String,
    pub frequency_mhz: u64,
}

/// Ghost image of a `CpuReading`.
pub ghost struct CpuReadingV {
    pub name: Seq<char>,
    pub frequency_mhz: u64,
}

impl DeepView for CpuReading {
    type V = CpuReadingV;

    open spec fn deep_view(&self) -> CpuReadingV {
        CpuReadingV { name: self.name@, frequency_mhz: self.frequency_mhz }
    }
}

/// One mounted disk or volume as the host reports it.
pub struct DiskReading {
    pub name: String,
    pub available_bytes: u64,
    pub total_bytes: u64,
}

/// Ghost image of a `DiskReading`.
pub ghost struct DiskReadingV {
    pub name: Seq<char>,
    pub available_bytes: u64,
    pub total_bytes: u64,
}

impl DeepView for DiskReading {
    type V = DiskReadingV;

    open spec fn deep_view(&self) -> DiskReadingV {
        DiskReadingV {
            name: self.name@,
            available_bytes: self.available_bytes,
            total_bytes: self.total_bytes,
        }
    }
}

/// One network interface as the host reports it: cumulative byte counters and
/// the adapter's MAC address already rendered as text.
pub struct NetworkReading {
    pub name: String,
    pub received_bytes: u64,
    pub transmitted_bytes: u64,
    pub mac: String,
}

/// Ghost image of a `NetworkReading`.
pub ghost struct NetworkReadingV {
    pub name: Seq<char>,
    pub received_bytes: u64,
    pub transmitted_bytes: u64,
    pub mac: Seq<char>,
}

impl DeepView for NetworkReading {
    type V = NetworkReadingV;

    open spec fn deep_view(&self) -> NetworkReadingV {
        NetworkReadingV {
            name: self.name@,
            received_bytes: self.received_bytes,
            transmitted_bytes: self.transmitted_bytes,
            mac: self.mac@,
        }
    }
}

/// Everything one refresh cycle reads from the host, as plain values.
pub struct HostReadings {
    pub cpus: Vec<CpuReading>,
    pub total_memory: u64,
    pub used_memory: u64,
    pub disks: Vec<DiskReading>,
    pub networks: Vec<NetworkReading>,
}

/// Ghost image of `HostReadings`.
pub ghost struct HostReadingsV {
    pub cpus: Seq<CpuReadingV>,
    pub total_memory: u64,
    pub used_memory: u64,
    pub disks: Seq<DiskReadingV>,
    pub networks: Seq<NetworkReadingV>,
}

impl DeepView for HostReadings {
    type V = HostReadingsV;

    open spec fn deep_view(&self) -> HostReadingsV {
        HostReadingsV {
            cpus: self.cpus.deep_view(),
            total_memory: self.total_memory,
            used_memory: self.used_memory,
            disks: self.disks.deep_view(),
            networks: self.networks.deep_view(),
        }
    }
}

/// One point-in-time telemetry report.
pub struct SystemSnapshot {
    pub cpu_summaries: Vec<String>,
    pub memory_summary: String,
    pub disk_summaries: Vec<String>,
    pub network_interfaces: Vec<(String, String)>,
}

/// Ghost image of a `SystemSnapshot`.
pub ghost struct SystemSnapshotV {
    pub cpu_summaries: Seq<Seq<char>>,
    pub memory_summary: Seq<char>,
    pub disk_summaries: Seq<Seq<char>>,
    pub network_interfaces: Seq<(Seq<char>, Seq<char>)>,
}

impl DeepView for SystemSnapshot {
    type V = SystemSnapshotV;

    open spec fn deep_view(&self) -> SystemSnapshotV {
        SystemSnapshotV {
            cpu_summaries: self.cpu_summaries.deep_view(),
            memory_summary: self.memory_summary@,
            disk_summaries: self.disk_summaries.deep_view(),
            network_interfaces: self.network_interfaces.deep_view(),
        }
    }
}

/// The summary line for one CPU core.
pub open spec fn spec_cpu_summary(name: Seq<char>, frequency_mhz: u64) -> Seq<char> {
    name + ": "@ + dec_str(frequency_mhz as nat) + " MHz"@
}

/// The memory line: totals truncated to whole megabytes.
pub open spec fn spec_memory_summary(total_bytes: u64, used_bytes: u64) -> Seq<char> {
    "Total: "@ + dec_str((total_bytes / BYTES_PER_MB) as nat) + " MB, Used: "@ + dec_str(
        (used_bytes / BYTES_PER_MB) as nat,
    ) + " MB"@
}

/// The summary line for one disk: sizes truncated to whole gigabytes.
pub open spec fn spec_disk_summary(name: Seq<char>, available_bytes: u64, total_bytes: u64) -> Seq<
    char,
> {
    name + ": "@ + dec_str((available_bytes / BYTES_PER_GB) as nat) + " GB / "@ + dec_str(
        (total_bytes / BYTES_PER_GB) as nat,
    ) + " GB"@
}

/// The summary line for one network interface.
pub open spec fn spec_network_summary(
    received_bytes: u64,
    transmitted_bytes: u64,
    mac: Seq<char>,
) -> Seq<char> {
    "Received: "@ + dec_str(received_bytes as nat) + " B, Transmitted: "@ + dec_str(
        transmitted_bytes as nat,
    ) + " B, MAC: "@ + mac
}

/// Renders the summary line for one CPU core.
pub fn cpu_summary(name: &str, frequency_mhz: u64) -> (s: String)
    ensures
        s@ == spec_cpu_summary(name@, frequency_mhz),
{
    let mut s = String::from_str(name);
    s.append(": ");
    let freq = u64_to_string(frequency_mhz);
    s.append(freq.as_str());
    s.append(" MHz");
    proof {
        assert(s@ =~= spec_cpu_summary(name@, frequency_mhz));
    }
    s
}

/// Renders the memory line from the host's byte counters.
pub fn memory_summary(total_bytes: u64, used_bytes: u64) -> (s: String)
    ensures
        s@ == spec_memory_summary(total_bytes, used_bytes),
{
    let mut s = String::from_str("Total: ");
    let total = u64_to_string(total_bytes / BYTES_PER_MB);
    s.append(total.as_str());
    s.append(" MB, Used: ");
    let used = u64_to_string(used_bytes / BYTES_PER_MB);
    s.append(used.as_str());
    s.append(" MB");
    proof {
        assert(s@ =~= spec_memory_summary(total_bytes, used_bytes));
    }
    s
}

/// Renders the summary line for one disk.
pub fn disk_summary(name: &str, available_bytes: u64, total_bytes: u64) -> (s: String)
    ensures
        s@ == spec_disk_summary(name@, available_bytes, total_bytes),
{
    let mut s = String::from_str(name);
    s.append(": ");
    let available = u64_to_string(available_bytes / BYTES_PER_GB);
    s.append(available.as_str());
    s.append(" GB / ");
    let total = u64_to_string(total_bytes / BYTES_PER_GB);
    s.append(total.as_str());
    s.append(" GB");
    proof {
        assert(s@ =~= spec_disk_summary(name@, available_bytes, total_bytes));
    }
    s
}

/// Index of the first entry of `t` keyed by `key`, or `-1` if there is none.
pub open spec fn key_index(t: Seq<(Seq<char>, Seq<char>)>, key: Seq<char>) -> int
    decreases t.len(),
{
    if t.len() == 0 {
        -1
    } else if t[0].0 == key {
        0
    } else {
        let r = key_index(t.drop_first(), key);
        if r < 0 {
            -1
        } else {
            r + 1
        }
    }
}

/// Inserting one interface into the table: overwrite the entry that already
/// carries the same key, else append a new entry.
pub open spec fn spec_net_insert(
    t: Seq<(Seq<char>, Seq<char>)>,
    key: Seq<char>,
    val: Seq<char>,
) -> Seq<(Seq<char>, Seq<char>)> {
    let i = key_index(t, key);
    if i < 0 {
        t.push((key, val))
    } else {
        t.update(i, (key, val))
    }
}

/// The interface table that inserting every reading, in order, produces.
pub open spec fn spec_net_table(nets: Seq<NetworkReadingV>) -> Seq<(Seq<char>, Seq<char>)>
    decreases nets.len(),
{
    if nets.len() == 0 {
        Seq::empty()
    } else {
        spec_net_insert(
            spec_net_table(nets.drop_last()),
            nets.last().name,
            spec_network_summary(
                nets.last().received_bytes,
                nets.last().transmitted_bytes,
                nets.last().mac,
            ),
        )
    }
}

/// No two entries of the table share a key.
pub open spec fn keys_distinct(t: Seq<(Seq<char>, Seq<char>)>) -> bool {
    forall|i: int, j: int| 0 <= i < j < t.len() ==> t[i].0 != t[j].0
}

/// The keys of the table, in order.
pub open spec fn table_keys(t: Seq<(Seq<char>, Seq<char>)>) -> Seq<Seq<char>> {
    t.map_values(|p: (Seq<char>, Seq<char>)| p.0)
}

/// The interface names of a sequence of readings, in order.
pub open spec fn net_names(nets: Seq<NetworkReadingV>) -> Seq<Seq<char>> {
    nets.map_values(|n: NetworkReadingV| n.name)
}

/// `key_index` finds the first entry with the given key, and `-1` exactly
/// when no entry has it.
pub proof fn lemma_key_index(t: Seq<(Seq<char>, Seq<char>)>, key: Seq<char>)
    ensures
        key_index(t, key) < t.len(),
        key_index(t, key) >= 0 ==> t[key_index(t, key)].0 == key,
        key_index(t, key) >= 0 ==> forall|i: int|
            0 <= i < key_index(t, key) ==> t[i].0 != key,
        key_index(t, key) < 0 ==> key_index(t, key) == -1,
        key_index(t, key) < 0 ==> forall|i: int| 0 <= i < t.len() ==> t[i].0 != key,
    decreases t.len(),
{
    if t.len() == 0 {
    } else if t[0].0 == key {
    } else {
        lemma_key_index(t.drop_first(), key);
        assert forall|i: int| 0 <= i < key_index(t, key) implies t[i].0 != key by {
            if i > 0 {
                assert(t.drop_first()[i - 1] == t[i]);
            }
        }
        if key_index(t, key) < 0 {
            assert forall|i: int| 0 <= i < t.len() implies t[i].0 != key by {
                if i > 0 {
                    assert(t.drop_first()[i - 1] == t[i]);
                }
            }
        }
    }
}

/// Inserting keeps the table's keys pairwise distinct.
pub proof fn lemma_net_insert_distinct(
    t: Seq<(Seq<char>, Seq<char>)>,
    key: Seq<char>,
    val: Seq<char>,
)
    requires
        keys_distinct(t),
    ensures
        keys_distinct(spec_net_insert(t, key, val)),
{
    lemma_key_index(t, key);
}

/// Every table that `spec_net_table` builds has pairwise distinct keys.
pub proof fn lemma_net_table_distinct(nets: Seq<NetworkReadingV>)
    ensures
        keys_distinct(spec_net_table(nets)),
    decreases nets.len(),
{
    if nets.len() > 0 {
        lemma_net_table_distinct(nets.drop_last());
        lemma_net_insert_distinct(
            spec_net_table(nets.drop_last()),
            nets.last().name,
            spec_network_summary(
                nets.last().received_bytes,
                nets.last().transmitted_bytes,
                nets.last().mac,
            ),
        );
    }
}

/// Where a key sits depends only on the keys already in the table.
pub proof fn lemma_key_index_of_keys(
    t1: Seq<(Seq<char>, Seq<char>)>,
    t2: Seq<(Seq<char>, Seq<char>)>,
    key: Seq<char>,
)
    requires
        table_keys(t1) == table_keys(t2),
    ensures
        key_index(t1, key) == key_index(t2, key),
    decreases t1.len(),
{
    assert(table_keys(t1).len() == t1.len());
    assert(table_keys(t2).len() == t2.len());
    if t1.len() == 0 {
    } else {
        assert(t1[0].0 == table_keys(t1)[0]);
        assert(t2[0].0 == table_keys(t2)[0]);
        assert(table_keys(t1.drop_first()) =~= table_keys(t1).drop_first());
        assert(table_keys(t2.drop_first()) =~= table_keys(t2).drop_first());
        lemma_key_index_of_keys(t1.drop_first(), t2.drop_first(), key);
    }
}

/// What inserting does to the key sequence: appends the key when it is new,
/// leaves the keys unchanged when it is already present.
pub proof fn lemma_net_insert_keys(t: Seq<(Seq<char>, Seq<char>)>, key: Seq<char>, val: Seq<char>)
    ensures
        key_index(t, key) < 0 ==> table_keys(spec_net_insert(t, key, val)) == table_keys(t).push(
            key,
        ),
        key_index(t, key) >= 0 ==> table_keys(spec_net_insert(t, key, val)) == table_keys(t),
{
    lemma_key_index(t, key);
    if key_index(t, key) < 0 {
        assert(table_keys(spec_net_insert(t, key, val)) =~= table_keys(t).push(key));
    } else {
        assert(table_keys(spec_net_insert(t, key, val)) =~= table_keys(t));
    }
}

/// Re-querying yields the same interface keys whenever the interface names
/// are unchanged, whatever the byte counters and MAC texts read: the table's
/// key sequence is a function of the name sequence alone.
pub proof fn lemma_net_keys_of_names(n1: Seq<NetworkReadingV>, n2: Seq<NetworkReadingV>)
    requires
        net_names(n1) == net_names(n2),
    ensures
        table_keys(spec_net_table(n1)) == table_keys(spec_net_table(n2)),
    decreases n1.len(),
{
    assert(net_names(n1).len() == n1.len());
    assert(net_names(n2).len() == n2.len());
    if n1.len() > 0 {
        assert(net_names(n1.drop_last()) =~= net_names(n1).drop_last());
        assert(net_names(n2.drop_last()) =~= net_names(n2).drop_last());
        lemma_net_keys_of_names(n1.drop_last(), n2.drop_last());
        let t1 = spec_net_table(n1.drop_last());
        let t2 = spec_net_table(n2.drop_last());
        let k1 = n1.last().name;
        let k2 = n2.last().name;
        assert(k1 == net_names(n1)[n1.len() - 1]);
        assert(k2 == net_names(n2)[n2.len() - 1]);
        lemma_key_index_of_keys(t1, t2, k1);
        lemma_net_insert_keys(
            t1,
            k1,
            spec_network_summary(
                n1.last().received_bytes,
                n1.last().transmitted_bytes,
                n1.last().mac,
            ),
        );
        lemma_net_insert_keys(
            t2,
            k2,
            spec_network_summary(
                n2.last().received_bytes,
                n2.last().transmitted_bytes,
                n2.last().mac,
            ),
        );
    }
}

/// Renders the summary line for one network interface.
pub fn network_summary(received_bytes: u64, transmitted_bytes: u64, mac: &str) -> (s: String)
    ensures
        s@ == spec_network_summary(received_bytes, transmitted_bytes, mac@),
{
    let mut s = String::from_str("Received: ");
    let received = u64_to_string(received_bytes);
    s.append(received.as_str());
    s.append(" B, Transmitted: ");
    let transmitted = u64_to_string(transmitted_bytes);
    s.append(transmitted.as_str());
    s.append(" B, MAC: ");
    s.append(mac);
    proof {
        assert(s@ =~= spec_network_summary(received_bytes, transmitted_bytes, mac@));
    }
    s
}

/// The whole snapshot as a function of one refresh cycle's readings.
pub open spec fn spec_snapshot(h: HostReadingsV) -> SystemSnapshotV {
    SystemSnapshotV {
        cpu_summaries: h.cpus.map_values(
            |c: CpuReadingV| spec_cpu_summary(c.name, c.frequency_mhz),
        ),
        memory_summary: spec_memory_summary(h.total_memory, h.used_memory),
        disk_summaries: h.disks.map_values(
            |d: DiskReadingV| spec_disk_summary(d.name, d.available_bytes, d.total_bytes),
        ),
        network_interfaces: spec_net_table(h.networks),
    }
}

impl SystemSnapshot {
    /// Each interface name keys at most one entry of the mapping.
    pub open spec fn wf(self) -> bool {
        keys_distinct(self.network_interfaces.deep_view())
    }
}

/// Two invocations over an unchanged host yield structurally identical
/// snapshots: the snapshot is a function of the readings alone, with no
/// state carried from one call to the next.
pub proof fn lemma_snapshot_deterministic(h1: HostReadings, h2: HostReadings)
    requires
        h1.deep_view() == h2.deep_view(),
    ensures
        spec_snapshot(h1.deep_view()) == spec_snapshot(h2.deep_view()),
{
}

/// Assembles the snapshot from one refresh cycle's readings: every category
/// is formatted independently, and the interface mapping is keyed by name.
pub fn build_snapshot(host: &HostReadings) -> (snap: SystemSnapshot)
    ensures
        snap.deep_view() == spec_snapshot(host.deep_view()),
        snap.wf(),
        snap.cpu_summaries@.len() == host.cpus@.len(),
{
    let ghost hv = host.deep_view();

    let mut cpu_summaries: Vec<String> = Vec::new();
    let mut i: usize = 0;
    while i < host.cpus.len()
        invariant
            i <= host.cpus.len(),
            cpu_summaries@.len() == i,
            forall|j: int|
                0 <= j < i ==> #[trigger] cpu_summaries.deep_view()[j] == spec_cpu_summary(
                    host.cpus.deep_view()[j].name,
                    host.cpus.deep_view()[j].frequency_mhz,
                ),
        decreases host.cpus.len() - i,
    {
        let c = &host.cpus[i];
        let ghost prev = cpu_summaries;
        cpu_summaries.push(cpu_summary(c.name.as_str(), c.frequency_mhz));
        proof {
            assert forall|j: int| 0 <= j < i + 1 implies #[trigger] cpu_summaries.deep_view()[j]
                == spec_cpu_summary(
                host.cpus.deep_view()[j].name,
                host.cpus.deep_view()[j].frequency_mhz,
            ) by {
                if j < i {
                    assert(cpu_summaries.deep_view()[j] == prev.deep_view()[j]);
                }
            }
        }
        i += 1;
    }
    proof {
        assert(cpu_summaries.deep_view() =~= spec_snapshot(hv).cpu_summaries);
    }

    let memory_summary = memory_summary(host.total_memory, host.used_memory);

    let mut disk_summaries: Vec<String> = Vec::new();
    let mut i: usize = 0;
    while i < host.disks.len()
        invariant
            i <= host.disks.len(),
            disk_summaries@.len() == i,
            forall|j: int|
                0 <= j < i ==> #[trigger] disk_summaries.deep_view()[j] == spec_disk_summary(
                    host.disks.deep_view()[j].name,
                    host.disks.deep_view()[j].available_bytes,
                    host.disks.deep_view()[j].total_bytes,
                ),
        decreases host.disks.len() - i,
    {
        let d = &host.disks[i];
        let ghost prev = disk_summaries;
        disk_summaries.push(disk_summary(d.name.as_str(), d.available_bytes, d.total_bytes));
        proof {
            assert forall|j: int| 0 <= j < i + 1 implies #[trigger] disk_summaries.deep_view()[j]
                == spec_disk_summary(
                host.disks.deep_view()[j].name,
                host.disks.deep_view()[j].available_bytes,
                host.disks.deep_view()[j].total_bytes,
            ) by {
                if j < i {
                    assert(disk_summaries.deep_view()[j] == prev.deep_view()[j]);
                }
            }
        }
        i += 1;
    }
    proof {
        assert(disk_summaries.deep_view() =~= spec_snapshot(hv).disk_summaries);
    }

    let mut network_interfaces: Vec<(String, String)> = Vec::new();
    let mut i: usize = 0;
    while i < host.networks.len()
        invariant
            i <= host.networks.len(),
            network_interfaces.deep_view() == spec_net_table(hv.networks.take(i as int)),
            hv == host.deep_view(),
        decreases host.networks.len() - i,
    {
        let n = &host.networks[i];
        let val = network_summary(n.received_bytes, n.transmitted_bytes, n.mac.as_str());
        let ghost t = network_interfaces.deep_view();
        proof {
            lemma_key_index(t, n.name@);
        }
        let mut j: usize = 0;
        let mut found = false;
        while j < network_interfaces.len() && !found
            invariant
                j <= network_interfaces.len(),
                t == network_interfaces.deep_view(),
                val@ == spec_network_summary(n.received_bytes, n.transmitted_bytes, n.mac@),
                !found ==> forall|k: int| 0 <= k < j ==> t[k].0 != n.name@,
                found ==> j < network_interfaces.len() && t[j as int].0 == n.name@ && (forall|
                    k: int,
                |
                    0 <= k < j ==> t[k].0 != n.name@),
            decreases network_interfaces@.len() - j + (if found { 0int } else { 1int }),
        {
            if network_interfaces[j].0.eq(&n.name) {
                found = true;
            } else {
                j += 1;
            }
        }
        proof {
            lemma_key_index(t, n.name@);
            if found {
                assert(key_index(t, n.name@) == j as int);
            } else {
                assert(key_index(t, n.name@) == -1);
            }
        }
        if found {
            network_interfaces[j].1 = val;
            proof {
                assert(network_interfaces.deep_view() =~= spec_net_insert(t, n.name@, val@));
            }
        } else {
            let key = String::from_str(n.name.as_str());
            network_interfaces.push((key, val));
            proof {
                assert(network_interfaces.deep_view() =~= spec_net_insert(t, n.name@, val@));
            }
        }
        proof {
            assert(hv.networks.take(i + 1 as int).drop_last() =~= hv.networks.take(i as int));
            assert(hv.networks.take(i + 1 as int).last() == hv.networks[i as int]);
        }
        i += 1;
    }
    proof {
        assert(hv.networks.take(host.networks@.len() as int) =~= hv.networks);
        lemma_net_table_distinct(hv.networks);
    }

    let snap = SystemSnapshot { cpu_summaries, memory_summary, disk_summaries, network_interfaces };
    proof {
        assert(snap.deep_view() =~= spec_snapshot(hv));
    }
    snap
}

} // verus!

