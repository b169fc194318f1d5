//! Reading the live host through the system-information library.
//!
//! Every value that crosses into the verified logic is a plain reading; the
//! query handle itself stays opaque and is discarded when the call returns.

use vstd::prelude::*;

use sysinfo::CpuExt;
use sysinfo::DiskExt;
use sysinfo::NetworkExt;
use sysinfo::NetworksExt;
use sysinfo::SystemExt;

use crate::snapshot::CpuReading;
use crate::snapshot::DiskReading;
use crate::snapshot::HostReadings;
use crate::snapshot::NetworkReading;
use crate::snapshot::SystemSnapshot;
use crate::snapshot::build_snapshot;

verus! {

#[verifier::external_type_specification]
#[verifier::external_body]
pub struct ExSystem(sysinfo::System);

/// Relies on sysinfo::SystemExt::new_all: a fresh query handle with every
/// category loaded once.
#[verifier::external_body]
fn sys_new_all() -> sysinfo::System {
    sysinfo::System::new_all()
}

/// Relies on sysinfo::SystemExt::refresh_all: re-reads every category from
/// the live host.
#[verifier::external_body]
fn sys_refresh_all(sys: &mut sysinfo::System) {
    sys.refresh_all();
}

/// Relies on sysinfo::SystemExt::cpus, sysinfo::CpuExt::name and
/// sysinfo::CpuExt::frequency: one entry per logical core, in the order the
/// host lists them.
#[verifier::external_body]
fn read_cpus(sys: &sysinfo::System) -> Vec<CpuReading> {
    sys.cpus().iter().map(
        |c| CpuReading { name: c.name().to_string(), frequency_mhz: c.frequency() },
    ).collect()
}

/// Relies on sysinfo::SystemExt::total_memory: total memory in bytes.
#[verifier::external_body]
fn read_total_memory(sys: &sysinfo::System) -> u64 {
    sys.total_memory()
}

/// Relies on sysinfo::SystemExt::used_memory: used memory in bytes.
#[verifier::external_body]
fn read_used_memory(sys: &sysinfo::System) -> u64 {
    sys.used_memory()
}

/// Relies on sysinfo::SystemExt::disks, sysinfo::DiskExt::name,
/// sysinfo::DiskExt::available_space and sysinfo::DiskExt::total_space: one
/// entry per mounted disk, sizes in bytes.
#[verifier::external_body]
fn read_disks(sys: &sysinfo::System) -> Vec<DiskReading> {
    sys.disks().iter().map(
        |d| DiskReading {
            name: d.name().to_string_lossy().to_string(),
            available_bytes: d.available_space(),
            total_bytes: d.total_space(),
        },
    ).collect()
}

/// Relies on sysinfo::SystemExt::networks and sysinfo::NetworksExt::iter:
/// the interface list is a map keyed by interface name, so each name occurs
/// at most once, whatever order the map is walked in. The counters come from
/// sysinfo::NetworkExt::total_received and total_transmitted; the MAC
/// address is rendered with sysinfo::MacAddr's derived Debug form.
#[verifier::external_body]
fn read_networks(sys: &sysinfo::System) -> (nets: Vec<NetworkReading>)
    ensures
        forall|i: int, j: int| 0 <= i < j < nets@.len() ==> nets@[i].name@ != nets@[j].name@,
{
    sys.networks().iter().map(
        |(name, data)| NetworkReading {
            name: name.to_string(),
            received_bytes: data.total_received(),
            transmitted_bytes: data.total_transmitted(),
            mac: format!("{:?}", data.mac_address()),
        },
    ).collect()
}

/// Performs one full refresh cycle and hands back every reading as plain
/// values. Interface names are distinct because the host keys them.
pub fn read_host() -> (readings: HostReadings)
    ensures
        forall|i: int, j: int|
            0 <= i < j < readings.networks@.len() ==> readings.networks@[i].name@
                != readings.networks@[j].name@,
{
    let mut sys = sys_new_all();
    sys_refresh_all(&mut sys);
    HostReadings {
        cpus: read_cpus(&sys),
        total_memory: read_total_memory(&sys),
        used_memory: read_used_memory(&sys),
        disks: read_disks(&sys),
        networks: read_networks(&sys),
    }
}

/// One telemetry invocation: refresh the host state, then format every
/// category into a fresh snapshot. It always succeeds; a category the host
/// cannot report simply comes back empty.
pub fn get_system_info() -> (snap: SystemSnapshot)
    ensures
        snap.wf(),
{
    let readings = read_host();
    build_snapshot(&readings)
}

} // verus!
