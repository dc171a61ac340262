//! Hardware facts published by an instance: the shape of the report and the
//! rules that turn raw probe results into it.

use vstd::prelude::*;

verus! {

/// One GPU as it appears in the published report.
#[derive(Debug, Clone)]
pub struct GpuInfo {
    pub name: String,
    pub memory: usize,
    pub core_count: usize,
}

/// The hardware of the machine an instance runs on.
#[derive(Debug, Clone)]
pub struct SystemInfo {
    pub cpu_arch: String,
    pub physical_cores: usize,
    pub total_memory: u64,
    pub gpus: Vec<GpuInfo>,
}

/// What the driver answered for one device. A query that failed is `None`;
/// the compute capability is always known for a device that was opened.
#[derive(Debug, Clone)]
pub struct GpuProbe {
    pub name: Option<String>,
    pub total_memory: Option<usize>,
    pub multiprocessor_count: Option<i32>,
    pub major: i32,
    pub minor: i32,
}

/// Cores per streaming multiprocessor for compute capability `major.minor`.
///
/// The capability is read as the number `16 * major + minor`. Kepler parts
/// have 192 cores per multiprocessor, the listed Pascal, Volta, Turing and
/// Ampere data-centre parts 64, and everything else, known or unknown, 128.
pub open spec fn cores_per_sm(major: int, minor: int) -> nat {
    let arch = 16 * major + minor;
    if arch == 0x30 || arch == 0x32 || arch == 0x35 || arch == 0x37 {
        192
    } else if arch == 0x60 || arch == 0x70 || arch == 0x72 || arch == 0x75 || arch == 0x80 {
        64
    } else {
        128
    }
}

/// The multiprocessor count used for a probe: zero when the query failed.
pub open spec fn probe_sm_count(probe: GpuProbe) -> int {
    match probe.multiprocessor_count {
        Some(count) => count as int,
        None => 0,
    }
}

/// The total core count of a probed device.
pub open spec fn probe_core_count(probe: GpuProbe) -> int {
    probe_sm_count(probe) * cores_per_sm(probe.major as int, probe.minor as int)
}

/// A probe whose core count can be held in a `usize`.
pub open spec fn probe_fits(probe: GpuProbe) -> bool {
    0 <= probe_sm_count(probe) && probe_core_count(probe) <= usize::MAX
}

/// The report entry that a probe gives rise to.
pub open spec fn probe_matches(probe: GpuProbe, info: GpuInfo) -> bool {
    &&& info.name@ == match probe.name {
        Some(name) => name@,
        None => "Unknown"@,
    }
    &&& info.memory == match probe.total_memory {
        Some(bytes) => bytes,
        None => 0,
    }
    &&& info.core_count == probe_core_count(probe)
}

/// Looks up the cores per multiprocessor of a compute capability.
pub fn sm_arch_to_smcores(major: i32, minor: i32) -> (cores: usize)
    ensures
        cores == cores_per_sm(major as int, minor as int),
{
    let gpu_arch_to_sms: [(i64, usize); 18] = [
        (0x30, 192),
        (0x32, 192),
        (0x35, 192),
        (0x37, 192),
        (0x50, 128),
        (0x52, 128),
        (0x53, 128),
        (0x60, 64),
        (0x61, 128),
        (0x62, 128),
        (0x70, 64),
        (0x72, 64),
        (0x75, 64),
        (0x80, 64),
        (0x86, 128),
        (0x87, 128),
        (0x89, 128),
        (0x90, 128),
    ];
    let arch: i64 = 16 * (major as i64) + (minor as i64);
    let mut i: usize = 0;
    while i < 18
        invariant
            i <= 18,
            arch == 16 * (major as int) + (minor as int),
            gpu_arch_to_sms@ == seq![
                (0x30i64, 192usize),
                (0x32i64, 192usize),
                (0x35i64, 192usize),
                (0x37i64, 192usize),
                (0x50i64, 128usize),
                (0x52i64, 128usize),
                (0x53i64, 128usize),
                (0x60i64, 64usize),
                (0x61i64, 128usize),
                (0x62i64, 128usize),
                (0x70i64, 64usize),
                (0x72i64, 64usize),
                (0x75i64, 64usize),
                (0x80i64, 64usize),
                (0x86i64, 128usize),
                (0x87i64, 128usize),
                (0x89i64, 128usize),
                (0x90i64, 128usize),
            ],
            forall|j: int| 0 <= j < i ==> (#[trigger] gpu_arch_to_sms@[j]).0 != arch,
        decreases 18 - i,
    {
        if gpu_arch_to_sms[i].0 == arch {
            return gpu_arch_to_sms[i].1;
        }
        i += 1;
    }
    gpu_arch_to_sms[17].1
}

/// Builds the report entry of one device from what the driver answered: the
/// name falls back to `Unknown`, memory and multiprocessor count to zero.
pub fn gpu_info(probe: &GpuProbe) -> (info: GpuInfo)
    requires
        probe_fits(*probe),
    ensures
        probe_matches(*probe, info),
{
    let sm_count: usize = match probe.multiprocessor_count {
        Some(count) => count as usize,
        None => 0,
    };
    let per_sm: usize = sm_arch_to_smcores(probe.major, probe.minor);
    let name: String = match &probe.name {
        Some(name) => name.clone(),
        None => "Unknown".to_owned(),
    };
    let memory: usize = match probe.total_memory {
        Some(bytes) => bytes,
        None => 0,
    };
    GpuInfo { name, memory, core_count: sm_count * per_sm }
}

/// The GPUs of the report. `None` stands for a driver that could not be
/// initialised or that reported no device count; the report then lists none.
pub fn get_gpu_info(probes: Option<&Vec<GpuProbe>>) -> (gpus: Vec<GpuInfo>)
    requires
        probes matches Some(list) ==> forall|i: int|
            0 <= i < list@.len() ==> probe_fits(#[trigger] list@[i]),
    ensures
        probes is None ==> gpus@.len() == 0,
        probes matches Some(list) ==> {
            &&& gpus@.len() == list@.len()
            &&& forall|i: int|
                0 <= i < list@.len() ==> probe_matches(list@[i], #[trigger] gpus@[i])
        },
{
    let mut gpus: Vec<GpuInfo> = Vec::new();
    match probes {
        None => {},
        Some(list) => {
            let ghost all = list@;
            let mut i: usize = 0;
            let n: usize = list.len();
            while i < n
                invariant
                    i <= n,
                    n == list@.len(),
                    list@ == all,
                    forall|k: int| 0 <= k < all.len() ==> probe_fits(#[trigger] all[k]),
                    gpus@.len() == i,
                    forall|k: int| 0 <= k < i ==> probe_matches(all[k], #[trigger] gpus@[k]),
                decreases n - i,
            {
                gpus.push(gpu_info(&list[i]));
                i += 1;
            }
        },
    }
    gpus
}

/// Assembles the report. An architecture that could not be determined is
/// reported as `Unknown`, an unknown core count as zero.
pub fn get_hardware_info(
    cpu_arch: Option<String>,
    physical_cores: Option<usize>,
    total_memory: u64,
    gpus: Vec<GpuInfo>,
) -> (info: SystemInfo)
    ensures
        info.cpu_arch@ == match cpu_arch {
            Some(arch) => arch@,
            None => "Unknown"@,
        },
        info.physical_cores == match physical_cores {
            Some(cores) => cores,
            None => 0,
        },
        info.total_memory == total_memory,
        info.gpus == gpus,
{
    let cpu_arch: String = match cpu_arch {
        Some(arch) => arch,
        None => "Unknown".to_owned(),
    };
    let physical_cores: usize = match physical_cores {
        Some(cores) => cores,
        None => 0,
    };
    SystemInfo { cpu_arch, physical_cores, total_memory, gpus }
}

} // verus!
