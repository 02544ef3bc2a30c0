//! The text collector: the captured output of the batched probe command,
//! read line by line into a fact set.
use crate::chars::{chars_of, lemma_two_digits, parse_u64, parsed_u64, trim_of, trim_range};
use crate::enums::StatType;
use crate::facts::{slot_text, CollectError, FactSet};
use crate::normalize::{
    device_text, format_device, format_memory, format_resolution, format_size, format_uptime,
    format_volumes, memory_text, pair_fragments, paired, resolution_text, size_text, texts,
    uptime_text, volumes_text,
};
use crate::render::FULL_TERMINAL_LINES;
use crate::scan::{
    find_char, first_cut, lemma_first_cut_bounds, lemma_first_cut_contains, range_is, split,
    split_ranges,
};
use vstd::prelude::*;
use vstd::string::{StrSliceExecFns, StringExecFns};

verus! {

/// The key of the operating system's caption.
pub const KEY_CAPTION: &'static str = "Caption";

/// The key of the operating system's version.
pub const KEY_VERSION: &'static str = "Version";

/// The key of a device name: the processor's first, the video controller's second.
pub const KEY_NAME: &'static str = "Name";

/// The key of the display's width.
pub const KEY_WIDTH: &'static str = "CurrentHorizontalResolution";

/// The key of the display's height.
pub const KEY_HEIGHT: &'static str = "CurrentVerticalResolution";

/// The key of the display's refresh rate.
pub const KEY_RATE: &'static str = "CurrentRefreshRate";

/// The key of the free memory, in KiB.
pub const KEY_FREE: &'static str = "FreePhysicalMemory";

/// The key of the total memory, in KiB.
pub const KEY_TOTAL: &'static str = "TotalVisibleMemorySize";

/// The key of the boot time stamp.
pub const KEY_BOOT: &'static str = "LastBootUpTime";

/// The key of a volume's device id.
pub const KEY_DEVICE: &'static str = "DeviceID";

/// The key of a volume's size, in bytes.
pub const KEY_SIZE: &'static str = "Size";

/// The refresh rate that stands in for one that does not parse.
pub const DEFAULT_RATE: u64 = 60;

/// Which device the next `Name` line names.
#[derive(Clone, Copy, Debug, PartialEq, Eq, Structural)]
pub enum NameSlot {
    /// No name was seen: the next is the processor's.
    ExpectCpu,
    /// The processor's name was seen: the next is the video controller's.
    ExpectGpu,
    /// Both were seen: further names are ignored.
    Done,
}

/// What the lines read so far have given.
pub struct Accumulator {
    os: Option<String>,
    kernel: Option<String>,
    cpu: Option<String>,
    gpu: Option<String>,
    width: Option<u64>,
    height: Option<u64>,
    rate: Option<u64>,
    free: Option<u64>,
    total: Option<u64>,
    uptime: Option<String>,
    fragments: Vec<String>,
}

/// What the lines read so far have given, as texts and numbers.
pub struct Gathered {
    pub os: Option<Seq<char>>,
    pub kernel: Option<Seq<char>>,
    pub cpu: Option<Seq<char>>,
    pub gpu: Option<Seq<char>>,
    pub width: Option<u64>,
    pub height: Option<u64>,
    pub rate: Option<u64>,
    pub free: Option<u64>,
    pub total: Option<u64>,
    pub uptime: Option<Seq<char>>,
    pub fragments: Seq<Seq<char>>,
}

/// The state before any line is read.
pub open spec fn nothing() -> Gathered {
    Gathered {
        os: None,
        kernel: None,
        cpu: None,
        gpu: None,
        width: None,
        height: None,
        rate: None,
        free: None,
        total: None,
        uptime: None,
        fragments: Seq::empty(),
    }
}

/// Which device the next `Name` line names, after what was gathered.
pub open spec fn name_slot(state: Gathered) -> NameSlot {
    if state.cpu is None {
        NameSlot::ExpectCpu
    } else if state.gpu is None {
        NameSlot::ExpectGpu
    } else {
        NameSlot::Done
    }
}

/// The key and the value of a line: what stands before and after its first
/// equals sign, each without surrounding whitespace. A line without an
/// equals sign has neither.
pub open spec fn key_value(line: Seq<char>) -> Option<(Seq<char>, Seq<char>)> {
    let cut = first_cut(line, '=');
    if 0 <= cut < line.len() {
        Some((trim_of(line.subrange(0, cut)), trim_of(line.subrange(cut + 1, line.len() as int))))
    } else {
        None
    }
}

/// The display text of one disk fragment: a value that holds a colon is a
/// device id and goes between brackets; any other value is a size in
/// bytes, shown in GiB, or is kept as it is where it is no number.
pub open spec fn fragment_text(value: Seq<char>) -> Seq<char> {
    if value.contains(':') {
        device_text(value)
    } else {
        match parsed_u64(value) {
            Some(bytes) => size_text(bytes as nat),
            None => value,
        }
    }
}

/// The uptime read off a boot time stamp: its ninth and tenth characters
/// are the hours, its eleventh and twelfth the minutes.
pub open spec fn stamp_uptime(stamp: Seq<char>) -> Option<Seq<char>> {
    if stamp.len() >= 12 {
        match (parsed_u64(stamp.subrange(8, 10)), parsed_u64(stamp.subrange(10, 12))) {
            (Some(hours), Some(minutes)) => Some(uptime_text(hours as int, minutes as int)),
            _ => None,
        }
    } else {
        None
    }
}

/// The refresh rate that `value` writes; 60 where it writes none.
pub open spec fn rate_of(value: Seq<char>) -> u64 {
    match parsed_u64(value) {
        Some(rate) => rate,
        None => 60,
    }
}

/// The state after a line with `key` and `value`.
pub open spec fn taken(state: Gathered, key: Seq<char>, value: Seq<char>) -> Result<
    Gathered,
    CollectError,
> {
    if key == KEY_CAPTION@ {
        Ok(Gathered { os: Some(value), ..state })
    } else if key == KEY_VERSION@ {
        Ok(Gathered { kernel: Some(value), ..state })
    } else if key == KEY_NAME@ {
        match name_slot(state) {
            NameSlot::ExpectCpu => Ok(Gathered { cpu: Some(value), ..state }),
            NameSlot::ExpectGpu => Ok(Gathered { gpu: Some(value), ..state }),
            NameSlot::Done => Ok(state),
        }
    } else if key == KEY_WIDTH@ {
        match parsed_u64(value) {
            Some(number) => Ok(Gathered { width: Some(number), ..state }),
            None => Err(CollectError::MalformedValue),
        }
    } else if key == KEY_HEIGHT@ {
        match parsed_u64(value) {
            Some(number) => Ok(Gathered { height: Some(number), ..state }),
            None => Err(CollectError::MalformedValue),
        }
    } else if key == KEY_RATE@ {
        Ok(Gathered { rate: Some(rate_of(value)), ..state })
    } else if key == KEY_FREE@ {
        match parsed_u64(value) {
            Some(number) => Ok(Gathered { free: Some(number), ..state }),
            None => Err(CollectError::MalformedValue),
        }
    } else if key == KEY_TOTAL@ {
        match parsed_u64(value) {
            Some(number) => Ok(Gathered { total: Some(number), ..state }),
            None => Err(CollectError::MalformedValue),
        }
    } else if key == KEY_BOOT@ {
        match stamp_uptime(value) {
            Some(text) => Ok(Gathered { uptime: Some(text), ..state }),
            None => Err(CollectError::MalformedValue),
        }
    } else if key == KEY_DEVICE@ || key == KEY_SIZE@ {
        Ok(Gathered { fragments: state.fragments.push(fragment_text(value)), ..state })
    } else {
        Ok(state)
    }
}

/// The state after `line`. A line without an equals sign changes nothing.
pub open spec fn scanned(state: Gathered, line: Seq<char>) -> Result<Gathered, CollectError> {
    match key_value(line) {
        Some((key, value)) => taken(state, key, value),
        None => Ok(state),
    }
}

/// The state after `lines`, read in order; the first line that fails, fails all.
pub open spec fn scanned_all(state: Gathered, lines: Seq<Seq<char>>) -> Result<
    Gathered,
    CollectError,
>
    decreases lines.len(),
{
    if lines.len() == 0 {
        Ok(state)
    } else {
        match scanned(state, lines.first()) {
            Ok(next) => scanned_all(next, lines.drop_first()),
            Err(error) => Err(error),
        }
    }
}

/// Whether every fact has what it is made from.
pub open spec fn sufficient(state: Gathered) -> bool {
    state.os is Some && state.kernel is Some && state.cpu is Some && state.gpu is Some
        && state.width is Some && state.height is Some && state.rate is Some && state.free is Some
        && state.total is Some && state.uptime is Some && state.fragments.len() > 0
}

/// The fact set made from a sufficient state.
pub open spec fn fact_map(state: Gathered) -> Map<StatType, Seq<char>> {
    Map::<StatType, Seq<char>>::empty().insert(StatType::Os, state.os->0).insert(
        StatType::Kernel,
        state.kernel->0,
    ).insert(StatType::Cpu, state.cpu->0).insert(StatType::Gpu, state.gpu->0).insert(
        StatType::Resolution,
        resolution_text(state.width->0 as nat, state.height->0 as nat, state.rate->0 as nat),
    ).insert(StatType::Ram, memory_text(state.total->0 as nat, state.free->0 as nat)).insert(
        StatType::Uptime,
        state.uptime->0,
    ).insert(StatType::Disks, volumes_text(paired(state.fragments)))
}

/// The facts made from what was gathered. A fact without what it is made
/// from is incomplete data; more free memory than there is memory is malformed.
pub open spec fn concluded(state: Gathered) -> Result<Map<StatType, Seq<char>>, CollectError> {
    if !sufficient(state) {
        Err(CollectError::IncompleteData)
    } else if state.free->0 > state.total->0 {
        Err(CollectError::MalformedValue)
    } else {
        Ok(fact_map(state))
    }
}

/// What the command's output is read as: the facts, and whether the
/// terminal is a full one. The first line is the terminal's line count;
/// every further line is scanned.
pub open spec fn collected(output: Seq<char>) -> Result<
    (Map<StatType, Seq<char>>, bool),
    CollectError,
> {
    let lines = split(output, '\n');
    match parsed_u64(trim_of(lines.first())) {
        None => Err(CollectError::MalformedValue),
        Some(count) => match scanned_all(nothing(), lines.drop_first()) {
            Err(error) => Err(error),
            Ok(state) => match concluded(state) {
                Err(error) => Err(error),
                Ok(facts) => Ok((facts, count > 37)),
            },
        },
    }
}

/// A collector's result with the fact set as a map.
pub open spec fn outcome(result: Result<(FactSet, bool), CollectError>) -> Result<
    (Map<StatType, Seq<char>>, bool),
    CollectError,
> {
    match result {
        Ok((facts, full)) => Ok((facts@, full)),
        Err(error) => Err(error),
    }
}

impl Accumulator {
    /// What was gathered, as texts and numbers.
    pub closed spec fn view(&self) -> Gathered {
        Gathered {
            os: slot_text(self.os),
            kernel: slot_text(self.kernel),
            cpu: slot_text(self.cpu),
            gpu: slot_text(self.gpu),
            width: self.width,
            height: self.height,
            rate: self.rate,
            free: self.free,
            total: self.total,
            uptime: slot_text(self.uptime),
            fragments: texts(self.fragments@),
        }
    }

    /// The state before any line is read.
    pub fn new() -> (state: Accumulator)
        ensures
            state@ == nothing(),
    {
        let state = Accumulator {
            os: None,
            kernel: None,
            cpu: None,
            gpu: None,
            width: None,
            height: None,
            rate: None,
            free: None,
            total: None,
            uptime: None,
            fragments: Vec::new(),
        };
        assert(state@.fragments =~= Seq::<Seq<char>>::empty());
        state
    }

    /// Which device the next `Name` line names.
    pub fn slot(&self) -> (slot: NameSlot)
        ensures
            slot == name_slot(self@),
    {
        if self.cpu.is_none() {
            NameSlot::ExpectCpu
        } else if self.gpu.is_none() {
            NameSlot::ExpectGpu
        } else {
            NameSlot::Done
        }
    }

    /// Takes in a line that has the key `chars[key]` and the value `chars[value]`.
    fn take(
        &mut self,
        line: &str,
        chars: &Vec<char>,
        key: (usize, usize),
        value: (usize, usize),
    ) -> (result: Result<(), CollectError>)
        requires
            chars@ == line@,
            key.0 <= key.1 <= chars.len(),
            value.0 <= value.1 <= chars.len(),
        ensures
            match result {
                Ok(()) => taken(
                    old(self)@,
                    chars@.subrange(key.0 as int, key.1 as int),
                    chars@.subrange(value.0 as int, value.1 as int),
                ) == Ok::<Gathered, CollectError>(final(self)@),
                Err(error) => taken(
                    old(self)@,
                    chars@.subrange(key.0 as int, key.1 as int),
                    chars@.subrange(value.0 as int, value.1 as int),
                ) == Err::<Gathered, CollectError>(error),
            },
    {
        let ghost text = chars@.subrange(value.0 as int, value.1 as int);
        let (from, to) = value;
        if range_is(chars, key.0, key.1, KEY_CAPTION) {
            self.os = Some(String::from_str(line.substring_char(from, to)));
        } else if range_is(chars, key.0, key.1, KEY_VERSION) {
            self.kernel = Some(String::from_str(line.substring_char(from, to)));
        } else if range_is(chars, key.0, key.1, KEY_NAME) {
            match self.slot() {
                NameSlot::ExpectCpu => {
                    self.cpu = Some(String::from_str(line.substring_char(from, to)));
                },
                NameSlot::ExpectGpu => {
                    self.gpu = Some(String::from_str(line.substring_char(from, to)));
                },
                NameSlot::Done => {},
            }
        } else if range_is(chars, key.0, key.1, KEY_WIDTH) {
            match parse_u64(chars, from, to) {
                Some(number) => {
                    self.width = Some(number);
                },
                None => {
                    return Err(CollectError::MalformedValue);
                },
            }
        } else if range_is(chars, key.0, key.1, KEY_HEIGHT) {
            match parse_u64(chars, from, to) {
                Some(number) => {
                    self.height = Some(number);
                },
                None => {
                    return Err(CollectError::MalformedValue);
                },
            }
        } else if range_is(chars, key.0, key.1, KEY_RATE) {
            let rate = match parse_u64(chars, from, to) {
                Some(number) => number,
                None => DEFAULT_RATE,
            };
            self.rate = Some(rate);
        } else if range_is(chars, key.0, key.1, KEY_FREE) {
            match parse_u64(chars, from, to) {
                Some(number) => {
                    self.free = Some(number);
                },
                None => {
                    return Err(CollectError::MalformedValue);
                },
            }
        } else if range_is(chars, key.0, key.1, KEY_TOTAL) {
            match parse_u64(chars, from, to) {
                Some(number) => {
                    self.total = Some(number);
                },
                None => {
                    return Err(CollectError::MalformedValue);
                },
            }
        } else if range_is(chars, key.0, key.1, KEY_BOOT) {
            if to - from < 12 {
                return Err(CollectError::MalformedValue);
            }
            proof {
                assert(text.subrange(8, 10) =~= chars@.subrange(from + 8, from + 10));
                assert(text.subrange(10, 12) =~= chars@.subrange(from + 10, from + 12));
            }
            let hours = parse_u64(chars, from + 8, from + 10);
            let minutes = parse_u64(chars, from + 10, from + 12);
            match (hours, minutes) {
                (Some(hours), Some(minutes)) => {
                    proof {
                        lemma_two_digits(text.subrange(8, 10));
                        lemma_two_digits(text.subrange(10, 12));
                    }
                    self.uptime = Some(format_uptime(hours as i64, minutes as i64));
                },
                _ => {
                    return Err(CollectError::MalformedValue);
                },
            }
        } else if range_is(chars, key.0, key.1, KEY_DEVICE) || range_is(
            chars,
            key.0,
            key.1,
            KEY_SIZE,
        ) {
            let colon = find_char(chars, from, to, ':');
            proof {
                lemma_first_cut_contains(text, ':');
            }
            let fragment = if colon < to {
                format_device(line.substring_char(from, to))
            } else {
                match parse_u64(chars, from, to) {
                    Some(bytes) => format_size(bytes),
                    None => String::from_str(line.substring_char(from, to)),
                }
            };
            self.fragments.push(fragment);
            proof {
                assert(texts(self.fragments@) =~= texts(old(self).fragments@).push(
                    fragment_text(text),
                ));
            }
        }
        Ok(())
    }

    /// Takes in one line of the command's output. A line without an equals
    /// sign and a line with an unknown key change nothing.
    pub fn scan(&mut self, line: &str) -> (result: Result<(), CollectError>)
        ensures
            match result {
                Ok(()) => scanned(old(self)@, line@) == Ok::<Gathered, CollectError>(
                    final(self)@,
                ),
                Err(error) => scanned(old(self)@, line@) == Err::<Gathered, CollectError>(error),
            },
    {
        let chars = chars_of(line);
        let end = chars.len();
        let cut = find_char(&chars, 0, end, '=');
        proof {
            assert(chars@.subrange(0, end as int) =~= line@);
        }
        if cut >= end {
            return Ok(());
        }
        let key = trim_range(&chars, 0, cut);
        let value = trim_range(&chars, cut + 1, end);
        self.take(line, &chars, key, value)
    }

    /// The fact set made from what was gathered.
    pub fn conclude(&self) -> (facts: Result<FactSet, CollectError>)
        ensures
            match facts {
                Ok(set) => concluded(self@) == Ok::<Map<StatType, Seq<char>>, CollectError>(set@),
                Err(error) => concluded(self@) == Err::<Map<StatType, Seq<char>>, CollectError>(
                    error,
                ),
            },
    {
        if self.fragments.len() == 0 {
            return Err(CollectError::IncompleteData);
        }
        match (
            &self.os,
            &self.kernel,
            &self.cpu,
            &self.gpu,
            self.width,
            self.height,
            self.rate,
            self.free,
            self.total,
            &self.uptime,
        ) {
            (
                Some(os),
                Some(kernel),
                Some(cpu),
                Some(gpu),
                Some(width),
                Some(height),
                Some(rate),
                Some(free),
                Some(total),
                Some(uptime),
            ) => {
                if free > total {
                    return Err(CollectError::MalformedValue);
                }
                let volumes = pair_fragments(&self.fragments);
                let mut facts = FactSet::new();
                facts.insert(StatType::Os, os.clone());
                facts.insert(StatType::Kernel, kernel.clone());
                facts.insert(StatType::Cpu, cpu.clone());
                facts.insert(StatType::Gpu, gpu.clone());
                facts.insert(StatType::Resolution, format_resolution(width, height, rate));
                facts.insert(StatType::Ram, format_memory(total, free));
                facts.insert(StatType::Uptime, uptime.clone());
                facts.insert(StatType::Disks, format_volumes(&volumes));
                Ok(facts)
            },
            _ => Err(CollectError::IncompleteData),
        }
    }
}

/// Reads the captured output of the probe command: the facts, and whether
/// the terminal is a full one.
///
/// The first line is the terminal's line count and must be a number. Of the
/// other lines, those of the form `key=value` with a known key are taken
/// in; a value that must be a number and is none is malformed, but for the
/// refresh rate, which is then 60. A fact that no line gave is incomplete data.
pub fn collect(output: &str) -> (result: Result<(FactSet, bool), CollectError>)
    ensures
        outcome(result) == collected(output@),
{
    let chars = chars_of(output);
    let lines = split_ranges(&chars, 0, chars.len(), '\n');
    let ghost all = split(output@, '\n');
    proof {
        assert(chars@.subrange(0, chars.len() as int) =~= output@);
        lemma_first_cut_bounds(output@, '\n');
    }
    let (first_from, first_to) = lines[0];
    let (from, to) = trim_range(&chars, first_from, first_to);
    let count = match parse_u64(&chars, from, to) {
        Some(count) => count,
        None => {
            return Err(CollectError::MalformedValue);
        },
    };
    let mut state = Accumulator::new();
    let mut i: usize = 1;
    proof {
        assert(all.subrange(1, all.len() as int) =~= all.drop_first());
    }
    while i < lines.len()
        invariant
            1 <= i <= lines.len(),
            chars@ == output@,
            all == split(output@, '\n'),
            lines.len() == all.len(),
            forall|k: int|
                0 <= k < lines.len() ==> (#[trigger] lines@[k]).0 <= lines@[k].1 <= chars.len()
                    && chars@.subrange(lines@[k].0 as int, lines@[k].1 as int) == all[k],
            scanned_all(nothing(), all.drop_first()) == scanned_all(
                state@,
                all.subrange(i as int, all.len() as int),
            ),
        decreases lines.len() - i,
    {
        let (line_from, line_to) = lines[i];
        let ghost rest = all.subrange(i as int, all.len() as int);
        proof {
            assert(rest.first() == all[i as int]);
            assert(rest.drop_first() =~= all.subrange(i + 1, all.len() as int));
        }
        match state.scan(output.substring_char(line_from, line_to)) {
            Ok(()) => {},
            Err(error) => {
                return Err(error);
            },
        }
        i += 1;
    }
    match state.conclude() {
        Ok(facts) => Ok((facts, count > FULL_TERMINAL_LINES)),
        Err(error) => Err(error),
    }
}

} // verus!
