//! From collected facts to the lines that are printed.
use crate::clock::{minutes_since_boot, uptime_minutes};
use crate::enums::StatType;
use crate::facts::{CollectError, FactSet};
use crate::normalize::texts;
use crate::render::{
    art_line, content_width, header_line, header_pad, labels_of, render_rows, rendered, row_count,
    start_row, values_of, ArtSet, FactRow,
};
use crate::windows::{query_fact_map, query_facts, Info};
use vstd::prelude::*;
use vstd::string::StringExecFns;

verus! {

/// The label of the shell row, which no fact category stands for.
pub const SHELL_LABEL: &'static str = "Shell";

/// The row of the shell among the rows of the query collector's display.
pub const SHELL_ROW: usize = 2;

/// The labels of the categories of `order`.
pub open spec fn row_labels(order: Seq<StatType>) -> Seq<Seq<char>> {
    Seq::new(order.len(), |i: int| order[i].label_text())
}

/// The values that `facts` holds for the categories of `order`.
pub open spec fn row_values(facts: Map<StatType, Seq<char>>, order: Seq<StatType>) -> Seq<
    Seq<char>,
> {
    Seq::new(order.len(), |i: int| facts[order[i]])
}

/// The art block for the terminal's size class.
pub open spec fn chosen_art(art: ArtSet, full: bool) -> Seq<String> {
    if full {
        art.full@
    } else {
        art.mini@
    }
}

/// The order of the categories in the query collector's display.
pub open spec fn query_order() -> Seq<StatType> {
    seq![
        StatType::Os,
        StatType::Kernel,
        StatType::Resolution,
        StatType::Uptime,
        StatType::Cpu,
        StatType::Gpu,
        StatType::Ram,
        StatType::Disks,
    ]
}

/// The lines of the query collector's display: the facts in their order,
/// with the shell row third.
pub open spec fn displayed(
    username: Seq<char>,
    info: Info,
    arch: Seq<char>,
    shell: Seq<char>,
    uptime_minutes: int,
    full: bool,
    art: ArtSet,
) -> Seq<Seq<char>> {
    rendered(
        row_labels(query_order()).insert(2, SHELL_LABEL@),
        row_values(query_fact_map(info, arch, uptime_minutes), query_order()).insert(2, shell),
        texts(chosen_art(art, full)),
        art.swatch@,
        full,
        username,
    )
}

/// The rows of the categories of `order`, with the values that `facts`
/// holds for them.
pub fn rows_of(facts: &FactSet, order: &Vec<StatType>) -> (rows: Vec<FactRow>)
    requires
        forall|i: int| 0 <= i < order.len() ==> facts@.contains_key(#[trigger] order@[i]),
    ensures
        labels_of(rows@) == row_labels(order@),
        values_of(rows@) == row_values(facts@, order@),
        rows.len() == order.len(),
{
    let mut rows: Vec<FactRow> = Vec::new();
    let mut i: usize = 0;
    while i < order.len()
        invariant
            i <= order.len(),
            rows.len() == i,
            forall|k: int| 0 <= k < order.len() ==> facts@.contains_key(#[trigger] order@[k]),
            forall|k: int|
                0 <= k < i ==> (#[trigger] rows@[k]).label@ == order@[k].label_text()
                    && rows@[k].value@ == facts@[order@[k]],
        decreases order.len() - i,
    {
        let category = order[i];
        let value = match facts.get(category) {
            Some(text) => text.clone(),
            None => String::new(),
        };
        rows.push(FactRow { label: String::from_str(category.label()), value });
        i += 1;
    }
    assert(labels_of(rows@) =~= row_labels(order@));
    assert(values_of(rows@) =~= row_values(facts@, order@));
    rows
}

/// Renders the facts of `order` beside the art block for the terminal's
/// size class. Every category of `order` must be in the set: a collector
/// that left one out has failed before.
pub fn render(
    facts: &FactSet,
    order: &Vec<StatType>,
    art: &ArtSet,
    full: bool,
    username: &str,
) -> (lines: Vec<String>)
    requires
        forall|i: int| 0 <= i < order.len() ==> facts@.contains_key(#[trigger] order@[i]),
        row_count(chosen_art(*art, full).len(), order.len() as nat, full) <= usize::MAX,
    ensures
        texts(lines@) == rendered(
            row_labels(order@),
            row_values(facts@, order@),
            texts(chosen_art(*art, full)),
            art.swatch@,
            full,
            username@,
        ),
        lines.len() == row_count(chosen_art(*art, full).len(), order.len() as nat, full),
        lines@[start_row(chosen_art(*art, full).len(), order.len() as nat, full) as int]@
            == header_line(
            art_line(
                texts(chosen_art(*art, full)),
                start_row(chosen_art(*art, full).len(), order.len() as nat, full) as int,
            ),
            header_pad(
                content_width(row_labels(order@), row_values(facts@, order@), username@),
                username@,
            ),
            username@,
        ),
{
    let rows = rows_of(facts, order);
    let block = if full {
        &art.full
    } else {
        &art.mini
    };
    render_rows(&rows, block, art.swatch.as_str(), full, username)
}

/// The categories of the query collector's display, in order.
pub fn display_order() -> (order: Vec<StatType>)
    ensures
        order@ == query_order(),
{
    let mut order: Vec<StatType> = Vec::new();
    order.push(StatType::Os);
    order.push(StatType::Kernel);
    order.push(StatType::Resolution);
    order.push(StatType::Uptime);
    order.push(StatType::Cpu);
    order.push(StatType::Gpu);
    order.push(StatType::Ram);
    order.push(StatType::Disks);
    assert(order@ =~= query_order());
    order
}

/// The display of the query collector's facts for an uptime of
/// `uptime_minutes`: the username header, the rule, and the rows OS, Kernel,
/// Shell, Resolution, Uptime, CPU, GPU, Memory and Disk.
pub fn display_at(
    username: &str,
    info: &Info,
    arch: &str,
    shell: &str,
    uptime_minutes: i64,
    full: bool,
    art: &ArtSet,
) -> (lines: Result<Vec<String>, CollectError>)
    ensures
        lines is Ok <==> info.0.free_physical_memory <= info.0.total_visible_memory_size,
        lines matches Ok(shown) ==> texts(shown@) == displayed(
            username@,
            *info,
            arch@,
            shell@,
            uptime_minutes as int,
            full,
            *art,
        ),
        lines matches Err(error) ==> error == CollectError::MalformedValue,
{
    let facts = match query_facts(info, arch, uptime_minutes) {
        Ok(facts) => facts,
        Err(error) => {
            return Err(error);
        },
    };
    let order = display_order();
    let mut rows = rows_of(&facts, &order);
    let ghost before = rows@;
    rows.insert(
        SHELL_ROW,
        FactRow { label: String::from_str(SHELL_LABEL), value: String::from_str(shell) },
    );
    proof {
        assert(labels_of(rows@) =~= labels_of(before).insert(2, SHELL_LABEL@));
        assert(values_of(rows@) =~= values_of(before).insert(2, shell@));
    }
    let block = if full {
        &art.full
    } else {
        &art.mini
    };
    Ok(render_rows(&rows, block, art.swatch.as_str(), full, username))
}

/// The display of the query collector's facts at the reading
/// `now_seconds` of the local clock, in whole seconds of wall-clock time
/// since the start of 1970. The uptime row runs from the boot time stamp to
/// the reading; a stamp that writes no time is malformed.
pub fn display(
    username: &str,
    info: &Info,
    arch: &str,
    shell: &str,
    now_seconds: i64,
    full: bool,
    art: &ArtSet,
) -> (lines: Result<Vec<String>, CollectError>)
    ensures
        lines is Ok <==> uptime_minutes(info.0.last_boot_up_time@, now_seconds as int) is Ok
            && info.0.free_physical_memory <= info.0.total_visible_memory_size,
        lines matches Ok(shown) ==> texts(shown@) == displayed(
            username@,
            *info,
            arch@,
            shell@,
            uptime_minutes(info.0.last_boot_up_time@, now_seconds as int)->Ok_0 as int,
            full,
            *art,
        ),
        lines matches Err(error) ==> error == CollectError::MalformedValue,
{
    let minutes = match minutes_since_boot(info.0.last_boot_up_time.as_str(), now_seconds) {
        Ok(minutes) => minutes,
        Err(error) => {
            return Err(error);
        },
    };
    display_at(username, info, arch, shell, minutes, full, art)
}

} // verus!
