//! Readings of the host through sysinfo.
use crate::metrics::Sample;
use sysinfo::{Disk, Disks, NetworkData, Networks, System};
use vstd::multiset::Multiset;
use vstd::prelude::*;

verus! {

#[verifier::external_type_specification]
#[verifier::external_body]
pub struct ExSystem(System);

#[verifier::external_type_specification]
#[verifier::external_body]
pub struct ExNetworks(Networks);

#[verifier::external_type_specification]
#[verifier::external_body]
pub struct ExDisks(Disks);

/// Declared because `Networks` dereferences to a map of these.
#[verifier::external_type_specification]
#[verifier::external_body]
pub struct ExNetworkData(NetworkData);

/// Declared because `Disks` dereferences to a slice of these.
#[verifier::external_type_specification]
#[verifier::external_body]
pub struct ExDisk(Disk);

/// Relies on sysinfo's `System::new_all`: a handle with every figure loaded.
#[verifier::external_body]
fn system_new_all() -> System {
    System::new_all()
}

/// Relies on sysinfo's `System::refresh_all`: reloads every figure.
#[verifier::external_body]
fn system_refresh_all(sys: &mut System) {
    sys.refresh_all()
}

/// Relies on sysinfo's `System::refresh_cpu_usage`: reloads the CPU load.
#[verifier::external_body]
fn system_refresh_cpu_usage(sys: &mut System) {
    sys.refresh_cpu_usage()
}

/// Relies on sysinfo's `System::refresh_memory`: reloads memory and swap use.
#[verifier::external_body]
fn system_refresh_memory(sys: &mut System) {
    sys.refresh_memory()
}

/// Relies on sysinfo's `System::global_cpu_usage`: the load over all CPUs, in
/// percent, handed over as the bit pattern of its single-precision value.
#[verifier::external_body]
fn system_cpu_usage_bits(sys: &System) -> u32 {
    sys.global_cpu_usage().to_bits()
}

/// Relies on sysinfo's `System::used_memory`: RAM in use, in bytes.
#[verifier::external_body]
fn system_used_memory(sys: &System) -> u64 {
    sys.used_memory()
}

/// Relies on sysinfo's `System::total_memory`: RAM size, in bytes.
#[verifier::external_body]
fn system_total_memory(sys: &System) -> u64 {
    sys.total_memory()
}

/// Relies on sysinfo's `System::used_swap`: swap in use, in bytes.
#[verifier::external_body]
fn system_used_swap(sys: &System) -> u64 {
    sys.used_swap()
}

/// Relies on sysinfo's `System::total_swap`: swap size, in bytes.
#[verifier::external_body]
fn system_total_swap(sys: &System) -> u64 {
    sys.total_swap()
}

/// Relies on sysinfo's `Networks::new_with_refreshed_list`: the interfaces
/// with their counters loaded.
#[verifier::external_body]
fn networks_new() -> Networks {
    Networks::new_with_refreshed_list()
}

/// Relies on sysinfo's `Networks::refresh`: reloads the counters, dropping
/// interfaces that are gone.
#[verifier::external_body]
fn networks_refresh(n: &mut Networks) {
    n.refresh(true)
}

/// The (total received, total transmitted) byte counters of the interfaces
/// that `n` lists, one pair per interface.
pub uninterp spec fn net_counters(n: Networks) -> Multiset<(u64, u64)>;

/// The (total read, total written) byte counters of the disks that `d`
/// lists, one pair per disk.
pub uninterp spec fn disk_counters(d: Disks) -> Multiset<(u64, u64)>;

/// Relies on sysinfo's `Networks::list`: for each interface, in no particular
/// order, its total received and transmitted bytes
/// (`NetworkData::total_received`, `NetworkData::total_transmitted`).
#[verifier::external_body]
fn networks_totals(n: &Networks) -> (r: Vec<(u64, u64)>)
    ensures
        r@.to_multiset() == net_counters(*n),
{
    n.list().values().map(|d| (d.total_received(), d.total_transmitted())).collect()
}

/// Relies on sysinfo's `Disks::new_with_refreshed_list`: the disks with their
/// counters loaded.
#[verifier::external_body]
fn disks_new() -> Disks {
    Disks::new_with_refreshed_list()
}

/// Relies on sysinfo's `Disks::refresh`: reloads the counters, dropping disks
/// that are gone.
#[verifier::external_body]
fn disks_refresh(d: &mut Disks) {
    d.refresh(true)
}

/// Relies on sysinfo's `Disks::list` and `Disk::usage`: for each disk its
/// total read and written bytes (`DiskUsage`'s two `total_` fields).
#[verifier::external_body]
fn disks_totals(d: &Disks) -> (r: Vec<(u64, u64)>)
    ensures
        r@.to_multiset() == disk_counters(*d),
{
    d.list().iter().map(|k| (k.usage().total_read_bytes, k.usage().total_written_bytes)).collect()
}

/// The sum of the first components of `l`.
pub open spec fn sum_first(l: Seq<(u64, u64)>) -> nat
    decreases l.len(),
{
    if l.len() == 0 {
        0
    } else {
        sum_first(l.drop_last()) + l.last().0 as nat
    }
}

/// The sum of the second components of `l`.
pub open spec fn sum_second(l: Seq<(u64, u64)>) -> nat
    decreases l.len(),
{
    if l.len() == 0 {
        0
    } else {
        sum_second(l.drop_last()) + l.last().1 as nat
    }
}

/// `n`, or `u64::MAX` where `n` is larger.
pub open spec fn clamp_u64(n: nat) -> u64 {
    if n > u64::MAX { u64::MAX } else { n as u64 }
}

/// Sums per-interface or per-device counter pairs, component by component;
/// a sum past `u64::MAX` stays at `u64::MAX`.
pub fn sum_pairs(l: &Vec<(u64, u64)>) -> (r: (u64, u64))
    ensures
        r.0 == clamp_u64(sum_first(l@)),
        r.1 == clamp_u64(sum_second(l@)),
{
    let mut a: u64 = 0;
    let mut b: u64 = 0;
    let mut i: usize = 0;
    while i < l.len()
        invariant
            i <= l@.len(),
            a == clamp_u64(sum_first(l@.take(i as int))),
            b == clamp_u64(sum_second(l@.take(i as int))),
        decreases l@.len() - i,
    {
        assert(l@.take(i + 1).drop_last() =~= l@.take(i as int));
        a = a.saturating_add(l[i].0);
        b = b.saturating_add(l[i].1);
        i = i + 1;
    }
    assert(l@.take(i as int) =~= l@);
    (a, b)
}

/// `r` is the component-wise sum, each stopping at `u64::MAX`, of the
/// counter pairs in `m`.
pub open spec fn sums_of(m: Multiset<(u64, u64)>, r: (u64, u64)) -> bool {
    exists|l: Seq<(u64, u64)>|
        #[trigger] l.to_multiset() == m && r.0 == clamp_u64(sum_first(l)) && r.1 == clamp_u64(
            sum_second(l),
        )
}

/// The operating system's figures, as sysinfo holds them, and how many
/// times they were read.
pub struct Probe {
    sys: System,
    networks: Networks,
    disks: Disks,
    reads: Ghost<nat>,
}

impl Probe {
    /// The network interfaces as last loaded.
    pub closed spec fn networks_spec(&self) -> Networks {
        self.networks
    }

    /// The disks as last loaded.
    pub closed spec fn disks_spec(&self) -> Disks {
        self.disks
    }

    /// How many times `read` has been called.
    pub closed spec fn read_count(&self) -> nat {
        self.reads@
    }

    /// Loads every figure once. CPU load is measured between two loads, so the
    /// next `read` gives a meaningful one only once sysinfo's minimum CPU
    /// update interval has passed.
    pub fn new() -> (p: Probe)
        ensures
            p.read_count() == 0,
    {
        let mut sys = system_new_all();
        let networks = networks_new();
        let disks = disks_new();
        system_refresh_all(&mut sys);
        Probe { sys, networks, disks, reads: Ghost(0) }
    }

    /// Received and transmitted bytes, summed over all interfaces.
    pub fn get_net_total(&self) -> (r: (u64, u64))
        ensures
            sums_of(net_counters(self.networks_spec()), r),
    {
        let l = networks_totals(&self.networks);
        let r = sum_pairs(&l);
        assert(l@.to_multiset() == net_counters(self.networks_spec()));
        r
    }

    /// Read and written bytes, summed over all disks.
    pub fn get_disk_total(&self) -> (r: (u64, u64))
        ensures
            sums_of(disk_counters(self.disks_spec()), r),
    {
        let l = disks_totals(&self.disks);
        let r = sum_pairs(&l);
        assert(l@.to_multiset() == disk_counters(self.disks_spec()));
        r
    }

    /// Reloads the figures and reads them: CPU load, memory and swap use, and
    /// the cumulative network and disk counters.
    pub fn read(&mut self) -> (s: Sample)
        ensures
            final(self).read_count() == old(self).read_count() + 1,
            sums_of(net_counters(final(self).networks_spec()), (s.net_rx, s.net_tx)),
            sums_of(disk_counters(final(self).disks_spec()), (s.disk_read, s.disk_write)),
    {
        self.reads = Ghost(self.reads@ + 1);
        system_refresh_cpu_usage(&mut self.sys);
        system_refresh_memory(&mut self.sys);
        networks_refresh(&mut self.networks);
        disks_refresh(&mut self.disks);
        let (net_rx, net_tx) = self.get_net_total();
        let (disk_read, disk_write) = self.get_disk_total();
        Sample {
            cpu_bits: system_cpu_usage_bits(&self.sys),
            mem_used: system_used_memory(&self.sys),
            mem_total: system_total_memory(&self.sys),
            swap_used: system_used_swap(&self.sys),
            swap_total: system_total_swap(&self.sys),
            net_rx,
            net_tx,
            disk_read,
            disk_write,
        }
    }
}

} // verus!
