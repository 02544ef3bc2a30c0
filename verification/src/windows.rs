//! The query collector: the records of the four management queries, and
//! the installed shell version found in the registry and the environment variables.
use crate::chars::chars_of;
use crate::clock::{minutes_since_boot, uptime_minutes};
use crate::enums::StatType;
use crate::facts::{slot_text, CollectError, FactSet};
use crate::normalize::{
    disk_text, format_disk, format_memory, format_os_name, format_resolution, format_uptime,
    format_volumes, memory_text, odd_minutes, os_name_text, resolution_text, split_minutes, texts,
    uptime_text, volumes_text, whole_hours,
};
use crate::render::is_full_terminal;
use crate::scan::{
    after_first, contains_text, find_char, find_text, first_cut, is_lex_less,
    lemma_first_occurrence_unique, lex_less, split, split_ranges,
};
use crate::trusted::{lowercase_of, to_lowercase};
use vstd::prelude::*;
use vstd::string::{StrSliceExecFns, StringExecFns};

verus! {

/// The operating system summary.
#[derive(Clone, Debug)]
pub struct Win32_OperatingSystem {
    pub last_boot_up_time: String,
    pub free_physical_memory: u64,
    pub version: String,
    pub caption: String,
    pub total_visible_memory_size: u64,
}

/// The processor summary.
#[derive(Clone, Debug)]
pub struct Win32_Processor {
    pub name: String,
}

/// The video controller summary.
#[derive(Clone, Debug)]
pub struct Win32_VideoController {
    pub name: String,
    pub current_horizontal_resolution: u16,
    pub current_vertical_resolution: u16,
    pub current_refresh_rate: u8,
}

/// One logical disk.
#[derive(Clone, Debug)]
pub struct Win32_LogicalDisk {
    pub device_id: String,
    pub size: u64,
}

/// The first record of each single-record query, and every logical disk.
pub type Info = (Win32_OperatingSystem, Win32_Processor, Win32_VideoController, Vec<
    Win32_LogicalDisk,
>);

/// Takes the first record of the operating system, processor and video
/// controller queries and all records of the disk query. A query that
/// returned no record fails the run: nothing stands in for it.
pub fn fetch(
    os: Vec<Win32_OperatingSystem>,
    cpu: Vec<Win32_Processor>,
    video: Vec<Win32_VideoController>,
    disks: Vec<Win32_LogicalDisk>,
) -> (info: Result<Info, CollectError>)
    ensures
        info is Ok <==> os.len() > 0 && cpu.len() > 0 && video.len() > 0 && disks.len() > 0,
        info matches Ok(found) ==> found.0 == os@[0] && found.1 == cpu@[0] && found.2 == video@[0]
            && found.3 == disks,
        info matches Err(error) ==> error == CollectError::IncompleteData,
{
    if os.len() == 0 || cpu.len() == 0 || video.len() == 0 || disks.len() == 0 {
        return Err(CollectError::IncompleteData);
    }
    let mut os = os;
    let mut cpu = cpu;
    let mut video = video;
    let first_os = os.remove(0);
    let first_cpu = cpu.remove(0);
    let first_video = video.remove(0);
    Ok((first_os, first_cpu, first_video, disks))
}

/// The display texts of the disks, in order.
pub open spec fn disk_texts(disks: Seq<Win32_LogicalDisk>) -> Seq<Seq<char>> {
    Seq::new(disks.len(), |i: int| disk_text(disks[i].device_id@, disks[i].size as nat))
}

/// The fact set that the query records normalise to, with the uptime
/// given in whole minutes.
pub open spec fn query_fact_map(info: Info, arch: Seq<char>, uptime_minutes: int) -> Map<
    StatType,
    Seq<char>,
> {
    Map::<StatType, Seq<char>>::empty().insert(
        StatType::Os,
        os_name_text(info.0.caption@, arch),
    ).insert(StatType::Kernel, info.0.version@).insert(StatType::Cpu, info.1.name@).insert(
        StatType::Gpu,
        info.2.name@,
    ).insert(
        StatType::Resolution,
        resolution_text(
            info.2.current_horizontal_resolution as nat,
            info.2.current_vertical_resolution as nat,
            info.2.current_refresh_rate as nat,
        ),
    ).insert(
        StatType::Ram,
        memory_text(
            info.0.total_visible_memory_size as nat,
            info.0.free_physical_memory as nat,
        ),
    ).insert(
        StatType::Uptime,
        uptime_text(whole_hours(uptime_minutes), odd_minutes(uptime_minutes)),
    ).insert(StatType::Disks, volumes_text(disk_texts(info.3@)))
}

/// Normalises the query records to a fact set. Free memory above the
/// total is malformed.
pub fn query_facts(info: &Info, arch: &str, uptime_minutes: i64) -> (facts: Result<
    FactSet,
    CollectError,
>)
    ensures
        facts is Ok <==> info.0.free_physical_memory <= info.0.total_visible_memory_size,
        facts matches Ok(set) ==> set@ == query_fact_map(*info, arch@, uptime_minutes as int),
        facts matches Err(error) ==> error == CollectError::MalformedValue,
{
    if info.0.free_physical_memory > info.0.total_visible_memory_size {
        return Err(CollectError::MalformedValue);
    }
    let mut volumes: Vec<String> = Vec::new();
    let mut i: usize = 0;
    while i < info.3.len()
        invariant
            i <= info.3.len(),
            volumes.len() == i,
            forall|k: int|
                0 <= k < i ==> (#[trigger] volumes@[k])@ == disk_text(
                    info.3@[k].device_id@,
                    info.3@[k].size as nat,
                ),
        decreases info.3.len() - i,
    {
        volumes.push(format_disk(info.3[i].device_id.as_str(), info.3[i].size));
        i += 1;
    }
    assert(texts(volumes@) =~= disk_texts(info.3@));
    let (hours, minutes) = split_minutes(uptime_minutes);
    let mut facts = FactSet::new();
    facts.insert(StatType::Os, format_os_name(info.0.caption.as_str(), arch));
    facts.insert(StatType::Kernel, info.0.version.clone());
    facts.insert(StatType::Cpu, info.1.name.clone());
    facts.insert(StatType::Gpu, info.2.name.clone());
    facts.insert(
        StatType::Resolution,
        format_resolution(
            info.2.current_horizontal_resolution as u64,
            info.2.current_vertical_resolution as u64,
            info.2.current_refresh_rate as u64,
        ),
    );
    facts.insert(
        StatType::Ram,
        format_memory(info.0.total_visible_memory_size, info.0.free_physical_memory),
    );
    facts.insert(StatType::Uptime, format_uptime(hours, minutes));
    facts.insert(StatType::Disks, format_volumes(&volumes));
    Ok(facts)
}

/// Whether each of the four queries returned a record.
pub open spec fn answered(
    os: Seq<Win32_OperatingSystem>,
    cpu: Seq<Win32_Processor>,
    video: Seq<Win32_VideoController>,
    disks: Seq<Win32_LogicalDisk>,
) -> bool {
    os.len() > 0 && cpu.len() > 0 && video.len() > 0 && disks.len() > 0
}

/// The facts of the query records for an uptime of `uptime_minutes`, and
/// whether a terminal of `terminal_lines` lines is a full one.
pub fn collect_at(
    os: Vec<Win32_OperatingSystem>,
    cpu: Vec<Win32_Processor>,
    video: Vec<Win32_VideoController>,
    disks: Vec<Win32_LogicalDisk>,
    arch: &str,
    uptime_minutes: i64,
    terminal_lines: usize,
) -> (result: Result<(FactSet, bool), CollectError>)
    ensures
        result is Ok <==> answered(os@, cpu@, video@, disks@) && os@[0].free_physical_memory
            <= os@[0].total_visible_memory_size,
        result matches Ok(found) ==> found.1 == (terminal_lines > 37) && found.0@
            == query_fact_map((os@[0], cpu@[0], video@[0], disks), arch@, uptime_minutes as int),
        result matches Err(error) ==> error == if answered(os@, cpu@, video@, disks@) {
            CollectError::MalformedValue
        } else {
            CollectError::IncompleteData
        },
{
    let info = match fetch(os, cpu, video, disks) {
        Ok(info) => info,
        Err(error) => {
            return Err(error);
        },
    };
    match query_facts(&info, arch, uptime_minutes) {
        Ok(facts) => Ok((facts, is_full_terminal(terminal_lines))),
        Err(error) => Err(error),
    }
}

/// The facts of the query records at the reading `now_seconds` of the
/// local clock, in whole seconds of wall-clock time since the start of
/// 1970, and whether a terminal of `terminal_lines` lines is a full one.
/// The uptime runs from the boot time stamp to the reading.
pub fn collect(
    os: Vec<Win32_OperatingSystem>,
    cpu: Vec<Win32_Processor>,
    video: Vec<Win32_VideoController>,
    disks: Vec<Win32_LogicalDisk>,
    arch: &str,
    now_seconds: i64,
    terminal_lines: usize,
) -> (result: Result<(FactSet, bool), CollectError>)
    ensures
        result is Ok <==> answered(os@, cpu@, video@, disks@) && uptime_minutes(
            os@[0].last_boot_up_time@,
            now_seconds as int,
        ) is Ok && os@[0].free_physical_memory <= os@[0].total_visible_memory_size,
        result matches Ok(found) ==> found.1 == (terminal_lines > 37) && found.0@
            == query_fact_map(
            (os@[0], cpu@[0], video@[0], disks),
            arch@,
            uptime_minutes(os@[0].last_boot_up_time@, now_seconds as int)->Ok_0 as int,
        ),
        result matches Err(error) ==> error == if answered(os@, cpu@, video@, disks@) {
            CollectError::MalformedValue
        } else {
            CollectError::IncompleteData
        },
{
    if os.len() == 0 {
        return Err(CollectError::IncompleteData);
    }
    if cpu.len() == 0 || video.len() == 0 || disks.len() == 0 {
        return Err(CollectError::IncompleteData);
    }
    let minutes = match minutes_since_boot(os[0].last_boot_up_time.as_str(), now_seconds) {
        Ok(minutes) => minutes,
        Err(error) => {
            return Err(error);
        },
    };
    collect_at(os, cpu, video, disks, arch, minutes, terminal_lines)
}

/// What reading one value under one registry key gave.
#[derive(Clone, Debug)]
pub enum KeyRead {
    /// The key could not be opened.
    NoKey,
    /// The key was opened and had no such value.
    NoValue,
    /// The value.
    Value(String),
}

/// Why the registry gave no version.
#[derive(Clone, Copy, Debug, PartialEq, Eq, Structural)]
pub enum RegistryError {
    KeyNotFound,
    ValueNotFound,
}

/// What the registry and the environment variables hold about installed shells.
#[derive(Clone, Debug)]
pub struct ShellProbe {
    /// The `SemanticVersion` of each installed-version subkey that has one,
    /// in the order of enumeration.
    pub installed: Vec<String>,
    /// The module search path variable, if it is set.
    pub search_path: Option<String>,
    /// The runtime version under the version 3 engine key.
    pub engine_3: KeyRead,
    /// The runtime version under the version 1 engine key.
    pub engine_1: KeyRead,
}

/// What precedes the version in the shell's display text.
pub const SHELL_PREFIX: &'static str = "PowerShell ";

/// The display text when no shell version was detected.
pub const CONSOLE_HOST: &'static str = "Console Host";

/// A path segment that holds this names a versioned shell.
pub const MODULE_TAG: &'static str = "powershell_";

/// The greatest of `versions` in dictionary order; empty if there is none.
pub open spec fn greatest(versions: Seq<Seq<char>>) -> Seq<char>
    decreases versions.len(),
{
    if versions.len() == 0 {
        Seq::empty()
    } else {
        let best = greatest(versions.drop_last());
        if lex_less(best, versions.last()) {
            versions.last()
        } else {
            best
        }
    }
}

/// The greatest of the installed versions, unless that is empty.
pub open spec fn installed_version(versions: Seq<Seq<char>>) -> Option<Seq<char>> {
    if greatest(versions).len() > 0 {
        Some(greatest(versions))
    } else {
        None
    }
}

/// The version that a path segment names: what follows the first module
/// tag in it, up to the next underscore or the end of the segment. A segment
/// without the tag names none, and so does one with nothing after the tag.
pub open spec fn tagged_version(segment: Seq<char>) -> Option<Seq<char>> {
    let rest = after_first(segment, MODULE_TAG@);
    let version = rest.subrange(0, first_cut(rest, '_'));
    if contains_text(segment, MODULE_TAG@) && version.len() > 0 {
        Some(version)
    } else {
        None
    }
}

/// The version named by the first of `segments` that names one.
pub open spec fn first_tagged(segments: Seq<Seq<char>>) -> Option<Seq<char>>
    decreases segments.len(),
{
    if segments.len() == 0 {
        None
    } else {
        match tagged_version(segments.first()) {
            Some(version) => Some(version),
            None => first_tagged(segments.drop_first()),
        }
    }
}

/// The version named by a lowercased module search path, whose segments
/// are separated by semicolons.
pub open spec fn module_path_version(lowered: Seq<char>) -> Option<Seq<char>> {
    first_tagged(split(lowered, ';'))
}

/// The runtime version of the legacy engine: that under the version 3
/// key where the key opens, else that under the version 1 key. An absent
/// key is no error as long as the other opens.
pub open spec fn legacy_version(engine_3: KeyRead, engine_1: KeyRead) -> Result<
    String,
    RegistryError,
> {
    match engine_3 {
        KeyRead::Value(version) => Ok(version),
        KeyRead::NoValue => Err(RegistryError::ValueNotFound),
        KeyRead::NoKey => match engine_1 {
            KeyRead::Value(version) => Ok(version),
            KeyRead::NoValue => Err(RegistryError::ValueNotFound),
            KeyRead::NoKey => Err(RegistryError::KeyNotFound),
        },
    }
}

/// The shell's display text: the first version found among the installed
/// versions, the module search path and the legacy engine, behind the
/// shell's name; without any, the console host.
pub open spec fn shell_text(
    installed: Option<Seq<char>>,
    from_path: Option<Seq<char>>,
    legacy: Option<Seq<char>>,
) -> Seq<char> {
    match installed {
        Some(version) => SHELL_PREFIX@ + version,
        None => match from_path {
            Some(version) => SHELL_PREFIX@ + version,
            None => match legacy {
                Some(version) => SHELL_PREFIX@ + version,
                None => CONSOLE_HOST@,
            },
        },
    }
}

/// The version that a registry lookup found, if it found one.
pub open spec fn found_text(found: Result<String, RegistryError>) -> Option<Seq<char>> {
    match found {
        Ok(text) => Some(text@),
        Err(_) => None,
    }
}

/// The greatest installed version in dictionary order, if there is one
/// that is not empty.
pub fn latest_installed(versions: &Vec<String>) -> (latest: Option<String>)
    ensures
        slot_text(latest) == installed_version(texts(versions@)),
{
    let mut best: Vec<char> = Vec::new();
    let mut best_at: usize = 0;
    let mut i: usize = 0;
    while i < versions.len()
        invariant
            i <= versions.len(),
            best@ == greatest(texts(versions@).subrange(0, i as int)),
            best@.len() > 0 ==> best_at < i && versions@[best_at as int]@ == best@,
        decreases versions.len() - i,
    {
        proof {
            let next = texts(versions@).subrange(0, i + 1);
            assert(next.drop_last() =~= texts(versions@).subrange(0, i as int));
            assert(next.last() == versions@[i as int]@);
        }
        let candidate = chars_of(versions[i].as_str());
        if is_lex_less(&best, &candidate) {
            best = candidate;
            best_at = i;
        }
        i += 1;
    }
    assert(texts(versions@).subrange(0, i as int) =~= texts(versions@));
    if best.len() > 0 {
        Some(versions[best_at].clone())
    } else {
        None
    }
}

/// The version named by the first segment of a lowercased module search
/// path that names one: what follows the module tag in it.
pub fn version_from_module_path(lowered: &str) -> (version: Option<String>)
    ensures
        slot_text(version) == module_path_version(lowered@),
{
    let chars = chars_of(lowered);
    let tag = chars_of(MODULE_TAG);
    let segments = split_ranges(&chars, 0, chars.len(), ';');
    let ghost all = split(lowered@, ';');
    assert(chars@.subrange(0, chars.len() as int) =~= lowered@);
    assert(all.subrange(0, all.len() as int) =~= all);
    let mut i: usize = 0;
    while i < segments.len()
        invariant
            i <= segments.len(),
            chars@ == lowered@,
            tag@ == MODULE_TAG@,
            all == split(lowered@, ';'),
            segments.len() == all.len(),
            forall|k: int|
                0 <= k < segments.len() ==> (#[trigger] segments@[k]).0 <= segments@[k].1
                    <= chars.len() && chars@.subrange(
                    segments@[k].0 as int,
                    segments@[k].1 as int,
                ) == all[k],
            first_tagged(all) == first_tagged(all.subrange(i as int, all.len() as int)),
        decreases segments.len() - i,
    {
        let (from, to) = segments[i];
        let ghost rest = all.subrange(i as int, all.len() as int);
        proof {
            assert(rest.first() == all[i as int]);
            assert(rest.drop_first() =~= all.subrange(i + 1, all.len() as int));
        }
        let ghost segment = chars@.subrange(from as int, to as int);
        match find_text(&chars, from, to, &tag) {
            Some(at) => {
                let start = at + tag.len();
                let end = find_char(&chars, start, to, '_');
                proof {
                    lemma_first_occurrence_unique(segment, tag@, at - from);
                    let rest = after_first(segment, tag@);
                    assert(rest =~= chars@.subrange(start as int, to as int));
                    assert(rest.subrange(0, end - start) =~= chars@.subrange(
                        start as int,
                        end as int,
                    ));
                }
                if end > start {
                    let version = lowered.substring_char(start, end);
                    return Some(String::from_str(version));
                }
            },
            None => {},
        }
        i += 1;
    }
    None
}

/// The runtime version of the legacy engine, from what the two engine
/// keys gave: the version 3 key counts where it opens, else the version 1 key.
pub fn fetch_legacy_ps_version(engine_3: KeyRead, engine_1: KeyRead) -> (version: Result<
    String,
    RegistryError,
>)
    ensures
        version == legacy_version(engine_3, engine_1),
{
    match engine_3 {
        KeyRead::Value(version) => Ok(version),
        KeyRead::NoValue => Err(RegistryError::ValueNotFound),
        KeyRead::NoKey => match engine_1 {
            KeyRead::Value(version) => Ok(version),
            KeyRead::NoValue => Err(RegistryError::ValueNotFound),
            KeyRead::NoKey => Err(RegistryError::KeyNotFound),
        },
    }
}

/// The shell's display text from what each of the three lookups found.
pub fn choose_shell(
    installed: Option<String>,
    from_path: Option<String>,
    legacy: Result<String, RegistryError>,
) -> (shell: String)
    ensures
        shell@ == shell_text(slot_text(installed), slot_text(from_path), found_text(legacy)),
{
    let version = match installed {
        Some(version) => Some(version),
        None => match from_path {
            Some(version) => Some(version),
            None => match legacy {
                Ok(version) => Some(version),
                Err(_) => None,
            },
        },
    };
    match version {
        Some(version) => {
            let mut shell = String::from_str(SHELL_PREFIX);
            shell.append(version.as_str());
            shell
        },
        None => String::from_str(CONSOLE_HOST),
    }
}

/// The display text of the latest installed shell.
///
/// The greatest installed version stands first; without one, the version
/// named in the lowercased module search path; without that, the legacy
/// engine's runtime version; without any, the console host.
pub fn fetch_latest_ps_version(probe: ShellProbe) -> (shell: String)
    ensures
        shell@ == shell_text(
            installed_version(texts(probe.installed@)),
            match probe.search_path {
                Some(path) => module_path_version(lowercase_of(path@)),
                None => None,
            },
            found_text(legacy_version(probe.engine_3, probe.engine_1)),
        ),
{
    let installed = latest_installed(&probe.installed);
    let from_path = match &probe.search_path {
        Some(path) => {
            let lowered = to_lowercase(path.as_str());
            version_from_module_path(lowered.as_str())
        },
        None => None,
    };
    let legacy = fetch_legacy_ps_version(probe.engine_3, probe.engine_1);
    choose_shell(installed, from_path, legacy)
}

/// The display form of the machine's name: lowercased, and `null` where
/// the machine has none.
pub fn username_of(machine_name: Option<&str>) -> (username: String)
    ensures
        username@ == lowercase_of(
            match machine_name {
                Some(name) => name@,
                None => "null"@,
            },
        ),
{
    match machine_name {
        Some(name) => to_lowercase(name),
        None => to_lowercase("null"),
    }
}

} // verus!
