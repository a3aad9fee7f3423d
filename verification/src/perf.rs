//! Performance figures for the settings panel.
use vstd::prelude::*;

verus! {

/// Load of the whole machine. The percentage is held as the bit pattern of a
/// single precision number.
#[derive(Debug, Clone, Copy, PartialEq, Eq, Structural)]
pub struct SystemSnapshot {
    pub total_cpu_percent: u32,
    pub used_memory_mb: u64,
    pub total_memory_mb: u64,
}

impl Default for SystemSnapshot {
    fn default() -> (s: Self)
        ensures
            s == (SystemSnapshot { total_cpu_percent: 0, used_memory_mb: 0, total_memory_mb: 0 }),
    {
        SystemSnapshot { total_cpu_percent: 0, used_memory_mb: 0, total_memory_mb: 0 }
    }
}

/// Live performance metrics for the F1 panel, sampled in the background. The
/// share of the processor is held as the bit pattern of a single precision
/// number.
#[derive(Debug)]
pub struct PerfMetrics {
    pub cpu_percent: u64,
    pub memory_mb: u64,
    pub system: SystemSnapshot,
}

/// What a sampler read of this process.
#[derive(Debug, Clone, Copy)]
pub struct ProcessSample {
    pub cpu_percent: u32,
    pub memory_bytes: u64,
}

/// Whole megabytes in `bytes`.
pub open spec fn megabytes(bytes: u64) -> u64 {
    bytes / 0x10_0000
}

fn to_megabytes(bytes: u64) -> (mb: u64)
    ensures
        mb == megabytes(bytes),
{
    bytes / 1024 / 1024
}

impl PerfMetrics {
    pub fn new() -> (m: Self)
        ensures
            m.cpu_percent == 0,
            m.memory_mb == 0,
            m.system == (SystemSnapshot {
                total_cpu_percent: 0,
                used_memory_mb: 0,
                total_memory_mb: 0,
            }),
    {
        PerfMetrics { cpu_percent: 0, memory_mb: 0, system: SystemSnapshot::default() }
    }

    /// The bit pattern of the process's share of the processor.
    pub fn cpu_percent(&self) -> (bits: u32)
        ensures
            bits as int == self.cpu_percent as int % 0x1_0000_0000,
    {
        (self.cpu_percent % 0x1_0000_0000) as u32
    }

    pub fn memory_mb(&self) -> (mb: u64)
        ensures
            mb == self.memory_mb,
    {
        self.memory_mb
    }

    pub fn system(&self) -> (s: SystemSnapshot)
        ensures
            s == self.system,
    {
        self.system
    }

    /// Takes one sample. Where the process was not found, what is known of it
    /// stays as it is.
    pub fn record(
        &mut self,
        total_cpu_percent: u32,
        used_bytes: u64,
        total_bytes: u64,
        process: Option<ProcessSample>,
    )
        ensures
            final(self).system == (SystemSnapshot {
                total_cpu_percent,
                used_memory_mb: megabytes(used_bytes),
                total_memory_mb: megabytes(total_bytes),
            }),
            match process {
                Some(p) => final(self).cpu_percent == p.cpu_percent && final(self).memory_mb
                    == megabytes(p.memory_bytes),
                None => final(self).cpu_percent == old(self).cpu_percent && final(self).memory_mb
                    == old(self).memory_mb,
            },
    {
        self.system = SystemSnapshot {
            total_cpu_percent,
            used_memory_mb: to_megabytes(used_bytes),
            total_memory_mb: to_megabytes(total_bytes),
        };
        if let Some(p) = process {
            self.cpu_percent = p.cpu_percent as u64;
            self.memory_mb = to_megabytes(p.memory_bytes);
        }
    }
}

/// Megabytes are whole: what they hold is in the bytes, and one more would not
/// be.
pub proof fn law_whole_megabytes(bytes: u64)
    ensures
        megabytes(bytes) * 0x10_0000 <= bytes,
        bytes < (megabytes(bytes) + 1) * 0x10_0000,
{
}

} // verus!
