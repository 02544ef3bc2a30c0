//! The fact set that a collector hands to the renderer, and the ways in
//! which collecting can fail.
use crate::enums::StatType;
use vstd::prelude::*;

verus! {

/// Why a run could not produce a fact set.
#[derive(Clone, Copy, Debug, PartialEq, Eq, Structural)]
pub enum CollectError {
    /// The management session or the command could not be started.
    ChannelUnavailable,
    /// A required query or field gave no usable value.
    IncompleteData,
    /// A field did not have the numeric or textual shape it must have.
    MalformedValue,
}

impl CollectError {
    /// The message shown to the operator.
    pub fn message(self) -> (text: &'static str)
        ensures
            text@ == match self {
                CollectError::ChannelUnavailable => "management channel unavailable"@,
                CollectError::IncompleteData => "a required fact is missing"@,
                CollectError::MalformedValue => "a field could not be read"@,
            },
    {
        match self {
            CollectError::ChannelUnavailable => "management channel unavailable",
            CollectError::IncompleteData => "a required fact is missing",
            CollectError::MalformedValue => "a field could not be read",
        }
    }
}

/// At most one display string per fact category.
#[derive(Clone, Debug)]
pub struct FactSet {
    os: Option<String>,
    kernel: Option<String>,
    cpu: Option<String>,
    gpu: Option<String>,
    resolution: Option<String>,
    ram: Option<String>,
    uptime: Option<String>,
    disks: Option<String>,
}

/// The text held in `slot`, if any.
pub open spec fn slot_text(slot: Option<String>) -> Option<Seq<char>> {
    match slot {
        Some(text) => Some(text@),
        None => None,
    }
}

impl FactSet {
    /// What the set holds for `category`.
    pub closed spec fn text_of(&self, category: StatType) -> Option<Seq<char>> {
        match category {
            StatType::Os => slot_text(self.os),
            StatType::Kernel => slot_text(self.kernel),
            StatType::Cpu => slot_text(self.cpu),
            StatType::Gpu => slot_text(self.gpu),
            StatType::Resolution => slot_text(self.resolution),
            StatType::Ram => slot_text(self.ram),
            StatType::Uptime => slot_text(self.uptime),
            StatType::Disks => slot_text(self.disks),
        }
    }

    /// The set as a map from category to display text.
    pub open spec fn view(&self) -> Map<StatType, Seq<char>> {
        Map::new(
            |category: StatType| self.text_of(category) is Some,
            |category: StatType| self.text_of(category)->0,
        )
    }

    /// Whether every category has a value.
    pub open spec fn complete(&self) -> bool {
        forall|category: StatType| #[trigger] self@.contains_key(category)
    }

    /// The set with no category filled.
    pub fn new() -> (facts: FactSet)
        ensures
            facts@ == Map::<StatType, Seq<char>>::empty(),
    {
        let facts = FactSet {
            os: None,
            kernel: None,
            cpu: None,
            gpu: None,
            resolution: None,
            ram: None,
            uptime: None,
            disks: None,
        };
        assert(facts@ =~= Map::<StatType, Seq<char>>::empty());
        facts
    }

    /// Sets the value of `category`, replacing an earlier one.
    pub fn insert(&mut self, category: StatType, text: String)
        ensures
            final(self)@ == old(self)@.insert(category, text@),
    {
        match category {
            StatType::Os => {
                self.os = Some(text);
            },
            StatType::Kernel => {
                self.kernel = Some(text);
            },
            StatType::Cpu => {
                self.cpu = Some(text);
            },
            StatType::Gpu => {
                self.gpu = Some(text);
            },
            StatType::Resolution => {
                self.resolution = Some(text);
            },
            StatType::Ram => {
                self.ram = Some(text);
            },
            StatType::Uptime => {
                self.uptime = Some(text);
            },
            StatType::Disks => {
                self.disks = Some(text);
            },
        }
        assert(self@ =~= old(self)@.insert(category, text@));
    }

    /// The value of `category`, if the set has one.
    pub fn get(&self, category: StatType) -> (text: Option<&String>)
        ensures
            match text {
                Some(t) => self@.contains_key(category) && t@ == self@[category],
                None => !self@.contains_key(category),
            },
    {
        let slot = match category {
            StatType::Os => &self.os,
            StatType::Kernel => &self.kernel,
            StatType::Cpu => &self.cpu,
            StatType::Gpu => &self.gpu,
            StatType::Resolution => &self.resolution,
            StatType::Ram => &self.ram,
            StatType::Uptime => &self.uptime,
            StatType::Disks => &self.disks,
        };
        slot.as_ref()
    }

    /// Whether every category has a value.
    pub fn is_complete(&self) -> (all: bool)
        ensures
            all == self.complete(),
    {
        let all = self.os.is_some() && self.kernel.is_some() && self.cpu.is_some()
            && self.gpu.is_some() && self.resolution.is_some() && self.ram.is_some()
            && self.uptime.is_some() && self.disks.is_some();
        proof {
            if all {
                assert forall|category: StatType| #[trigger]
                    self@.contains_key(category) by {
                    assert(self.text_of(category) is Some);
                }
            } else {
                if self.os is None {
                    assert(!self@.contains_key(StatType::Os));
                } else if self.kernel is None {
                    assert(!self@.contains_key(StatType::Kernel));
                } else if self.cpu is None {
                    assert(!self@.contains_key(StatType::Cpu));
                } else if self.gpu is None {
                    assert(!self@.contains_key(StatType::Gpu));
                } else if self.resolution is None {
                    assert(!self@.contains_key(StatType::Resolution));
                } else if self.ram is None {
                    assert(!self@.contains_key(StatType::Ram));
                } else if self.uptime is None {
                    assert(!self@.contains_key(StatType::Uptime));
                } else {
                    assert(!self@.contains_key(StatType::Disks));
                }
            }
        }
        all
    }
}

} // verus!
