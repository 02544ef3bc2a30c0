//! The closed set of fact categories.
use vstd::prelude::*;

verus! {

/// One named slot of host information that every collector reports.
#[derive(Clone, Copy, Debug, PartialEq, Eq, Hash, Structural)]
pub enum StatType {
    Os,
    Kernel,
    Cpu,
    Gpu,
    Resolution,
    Ram,
    Uptime,
    Disks,
}

impl StatType {
    /// The label printed in front of the category's value.
    pub open spec fn label_text(self) -> Seq<char> {
        match self {
            StatType::Os => "OS"@,
            StatType::Kernel => "Kernel"@,
            StatType::Cpu => "CPU"@,
            StatType::Gpu => "GPU"@,
            StatType::Resolution => "Resolution"@,
            StatType::Ram => "Memory"@,
            StatType::Uptime => "Uptime"@,
            StatType::Disks => "Disk"@,
        }
    }

    /// The label printed in front of the category's value.
    pub fn label(self) -> (text: &'static str)
        ensures
            text@ == self.label_text(),
    {
        match self {
            StatType::Os => "OS",
            StatType::Kernel => "Kernel",
            StatType::Cpu => "CPU",
            StatType::Gpu => "GPU",
            StatType::Resolution => "Resolution",
            StatType::Ram => "Memory",
            StatType::Uptime => "Uptime",
            StatType::Disks => "Disk",
        }
    }
}

} // verus!
