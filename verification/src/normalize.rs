//! The fact normaliser: raw numbers and records to display strings. Both
//! collectors format through these functions, so a unit or a separator is
//! decided here and nowhere else.
use crate::chars::{decimal_text, push_decimal, push_signed_decimal, signed_decimal_text};
use vstd::prelude::*;
use vstd::string::StringExecFns;

verus! {

/// Kibibytes in a mebibyte.
pub const KIB_PER_MIB: u64 = 1024;

/// Bytes in a gibibyte.
pub const BYTES_PER_GIB: u64 = 1_073_741_824;

/// Minutes in an hour.
pub const MINUTES_PER_HOUR: i64 = 60;

/// The texts of a list of strings.
pub open spec fn texts(items: Seq<String>) -> Seq<Seq<char>> {
    Seq::new(items.len(), |i: int| items[i]@)
}

/// `"{used} MiB / {total} MiB"`, from the total and the free memory in KiB.
pub open spec fn memory_text(total_kib: nat, free_kib: nat) -> Seq<char> {
    decimal_text(((total_kib - free_kib) / 1024) as nat) + " MiB / "@ + decimal_text(
        total_kib / 1024,
    ) + " MiB"@
}

/// `"{width}x{height} @ {rate}Hz"`.
pub open spec fn resolution_text(width: nat, height: nat, rate: nat) -> Seq<char> {
    decimal_text(width) + "x"@ + decimal_text(height) + " @ "@ + decimal_text(rate) + "Hz"@
}

/// `"{hours} hours, {minutes} minutes"`.
pub open spec fn uptime_text(hours: int, minutes: int) -> Seq<char> {
    signed_decimal_text(hours) + " hours, "@ + signed_decimal_text(minutes) + " minutes"@
}

/// The whole hours in `total_minutes`, rounded towards zero.
pub open spec fn whole_hours(total_minutes: int) -> int {
    if total_minutes >= 0 {
        total_minutes / 60
    } else {
        -((-total_minutes) / 60)
    }
}

/// The minutes of `total_minutes` beyond its whole hours; it has the sign
/// of `total_minutes`.
pub open spec fn odd_minutes(total_minutes: int) -> int {
    total_minutes - 60 * whole_hours(total_minutes)
}

/// `"N GiB"`, from a size in bytes.
pub open spec fn size_text(bytes: nat) -> Seq<char> {
    decimal_text(bytes / 1_073_741_824) + " GiB"@
}

/// `"({id})"`.
pub open spec fn device_text(device_id: Seq<char>) -> Seq<char> {
    "("@ + device_id + ")"@
}

/// `"({id}) N GiB"`, from a device id and a size in bytes.
pub open spec fn disk_text(device_id: Seq<char>, bytes: nat) -> Seq<char> {
    device_text(device_id) + " "@ + size_text(bytes)
}

/// `"{caption} {arch}"`.
pub open spec fn os_name_text(caption: Seq<char>, arch: Seq<char>) -> Seq<char> {
    caption + " "@ + arch
}

/// The parts in order, with `separator` between each two neighbours.
pub open spec fn joined(parts: Seq<Seq<char>>, separator: Seq<char>) -> Seq<char>
    decreases parts.len(),
{
    if parts.len() == 0 {
        Seq::empty()
    } else if parts.len() == 1 {
        parts[0]
    } else {
        joined(parts.drop_last(), separator) + separator + parts.last()
    }
}

/// Every two consecutive fragments as one text with a space between them;
/// a last fragment without a partner stands alone.
pub open spec fn paired(fragments: Seq<Seq<char>>) -> Seq<Seq<char>> {
    Seq::new(
        ((fragments.len() + 1) / 2) as nat,
        |i: int|
            if 2 * i + 1 < fragments.len() {
                fragments[2 * i] + " "@ + fragments[2 * i + 1]
            } else {
                fragments[2 * i]
            },
    )
}

/// The volume texts joined by `" | "`.
pub open spec fn volumes_text(volumes: Seq<Seq<char>>) -> Seq<char> {
    joined(volumes, " | "@)
}

/// Formats memory usage from the total and the free memory, both in KiB.
pub fn format_memory(total_kib: u64, free_kib: u64) -> (text: String)
    requires
        free_kib <= total_kib,
    ensures
        text@ == memory_text(total_kib as nat, free_kib as nat),
{
    let mut text = String::new();
    push_decimal(&mut text, (total_kib - free_kib) / KIB_PER_MIB);
    text.append(" MiB / ");
    push_decimal(&mut text, total_kib / KIB_PER_MIB);
    text.append(" MiB");
    assert(text@ =~= memory_text(total_kib as nat, free_kib as nat));
    text
}

/// Formats a display mode from its width, height and refresh rate.
pub fn format_resolution(width: u64, height: u64, rate: u64) -> (text: String)
    ensures
        text@ == resolution_text(width as nat, height as nat, rate as nat),
{
    let mut text = String::new();
    push_decimal(&mut text, width);
    text.append("x");
    push_decimal(&mut text, height);
    text.append(" @ ");
    push_decimal(&mut text, rate);
    text.append("Hz");
    assert(text@ =~= resolution_text(width as nat, height as nat, rate as nat));
    text
}

/// Formats a duration given as hours and minutes.
pub fn format_uptime(hours: i64, minutes: i64) -> (text: String)
    ensures
        text@ == uptime_text(hours as int, minutes as int),
{
    let mut text = String::new();
    push_signed_decimal(&mut text, hours);
    text.append(" hours, ");
    push_signed_decimal(&mut text, minutes);
    text.append(" minutes");
    assert(text@ =~= uptime_text(hours as int, minutes as int));
    text
}

/// Splits a duration in minutes into whole hours and the minutes beyond
/// them, both rounded towards zero.
pub fn split_minutes(total_minutes: i64) -> (parts: (i64, i64))
    ensures
        parts.0 == whole_hours(total_minutes as int),
        parts.1 == odd_minutes(total_minutes as int),
{
    if total_minutes >= 0 {
        (total_minutes / MINUTES_PER_HOUR, total_minutes % MINUTES_PER_HOUR)
    } else if total_minutes == i64::MIN {
        (-153722867280912930, -8)
    } else {
        let magnitude: i64 = -total_minutes;
        (-(magnitude / MINUTES_PER_HOUR), -(magnitude % MINUTES_PER_HOUR))
    }
}

/// Formats a size in bytes as whole gibibytes.
pub fn format_size(bytes: u64) -> (text: String)
    ensures
        text@ == size_text(bytes as nat),
{
    let mut text = String::new();
    push_decimal(&mut text, bytes / BYTES_PER_GIB);
    text.append(" GiB");
    assert(text@ =~= size_text(bytes as nat));
    text
}

/// Formats a device id between round brackets.
pub fn format_device(device_id: &str) -> (text: String)
    ensures
        text@ == device_text(device_id@),
{
    let mut text = String::new();
    text.append("(");
    text.append(device_id);
    text.append(")");
    assert(text@ =~= device_text(device_id@));
    text
}

/// Formats one disk volume from its device id and its size in bytes.
pub fn format_disk(device_id: &str, bytes: u64) -> (text: String)
    ensures
        text@ == disk_text(device_id@, bytes as nat),
{
    let mut text = format_device(device_id);
    text.append(" ");
    let size = format_size(bytes);
    text.append(size.as_str());
    text
}

/// Formats the operating system's name from its caption and the machine
/// architecture.
pub fn format_os_name(caption: &str, arch: &str) -> (text: String)
    ensures
        text@ == os_name_text(caption@, arch@),
{
    let mut text = String::new();
    text.append(caption);
    text.append(" ");
    text.append(arch);
    assert(text@ =~= os_name_text(caption@, arch@));
    text
}

/// Joins `parts` with `separator` between each two neighbours.
pub fn join(parts: &Vec<String>, separator: &str) -> (text: String)
    ensures
        text@ == joined(texts(parts@), separator@),
{
    let mut text = String::new();
    let mut i: usize = 0;
    while i < parts.len()
        invariant
            i <= parts.len(),
            text@ == joined(texts(parts@).subrange(0, i as int), separator@),
        decreases parts.len() - i,
    {
        let ghost before = texts(parts@).subrange(0, i as int);
        let ghost after = texts(parts@).subrange(0, i + 1);
        proof {
            assert(after.drop_last() =~= before);
            assert(after.last() == parts@[i as int]@);
        }
        if i > 0 {
            text.append(separator);
        }
        text.append(parts[i].as_str());
        proof {
            if i == 0 {
                assert(text@ =~= after[0]);
            }
        }
        i += 1;
    }
    assert(texts(parts@).subrange(0, i as int) =~= texts(parts@));
    text
}

/// Pairs every two consecutive disk fragments into one volume text.
pub fn pair_fragments(fragments: &Vec<String>) -> (volumes: Vec<String>)
    ensures
        texts(volumes@) == paired(texts(fragments@)),
{
    let mut volumes: Vec<String> = Vec::new();
    let count = fragments.len();
    let mut i: usize = 0;
    while i < count
        invariant
            count == fragments.len(),
            i <= count,
            i % 2 == 0 || i == count,
            volumes.len() == (i + 1) / 2,
            forall|k: int|
                0 <= k < volumes.len() ==> (#[trigger] volumes@[k])@ == paired(
                    texts(fragments@),
                )[k],
        decreases count - i,
    {
        let mut volume = String::new();
        volume.append(fragments[i].as_str());
        let partnered = count - i >= 2;
        if partnered {
            volume.append(" ");
            volume.append(fragments[i + 1].as_str());
        }
        proof {
            assert(volume@ =~= paired(texts(fragments@))[i as int / 2]);
        }
        volumes.push(volume);
        i = if partnered {
            i + 2
        } else {
            count
        };
    }
    assert(texts(volumes@) =~= paired(texts(fragments@)));
    volumes
}

/// Formats the disk volumes, joined by `" | "`.
pub fn format_volumes(volumes: &Vec<String>) -> (text: String)
    ensures
        text@ == volumes_text(texts(volumes@)),
{
    join(volumes, " | ")
}

} // verus!
