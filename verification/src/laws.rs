//! What holds of the collectors, the normaliser and the renderer on every input.
use crate::enums::StatType;
use crate::facts::{CollectError, FactSet};
use crate::normalize::{device_text, paired, size_text, texts, volumes_text};
use crate::chars::{all_digits, decimal_text, decimal_value, digit_char, parsed_u64};
use crate::render::{art_line, content_width, header_line, header_pad, rendered, start_row};
use crate::scan::{
    first_cut, first_occurrence, lemma_first_occurrence_unique, lex_less, split,
};
use crate::text_collector::{
    collected, key_value, name_slot, nothing, outcome, scanned, scanned_all, taken, Gathered,
    NameSlot, KEY_CAPTION, KEY_HEIGHT, KEY_NAME, KEY_RATE, KEY_VERSION, KEY_WIDTH,
};
use crate::windows::{
    disk_texts, greatest, legacy_version, query_fact_map, tagged_version, Info, KeyRead,
    RegistryError, Win32_LogicalDisk, MODULE_TAG,
};
use vstd::prelude::*;

verus! {

/// Pairing keeps the order of the fragments: the pairs of a list that
/// follows an even number of fragments follow the pairs of those.
pub proof fn lemma_pairing_keeps_order(first: Seq<Seq<char>>, second: Seq<Seq<char>>)
    requires
        first.len() % 2 == 0,
    ensures
        paired(first + second) == paired(first) + paired(second),
{
    let whole = first + second;
    let half = first.len() as int / 2;
    assert(paired(first).len() == half);
    assert forall|i: int| 0 <= i < paired(whole).len() implies paired(whole)[i] == (paired(first)
        + paired(second))[i] by {
        if i < half {
            assert(whole[2 * i] == first[2 * i]);
            assert(whole[2 * i + 1] == first[2 * i + 1]);
        } else {
            let j = i - half;
            assert(whole[2 * i] == second[2 * j]);
            if 2 * i + 1 < whole.len() {
                assert(whole[2 * i + 1] == second[2 * j + 1]);
            }
        }
    }
    assert(paired(whole) =~= paired(first) + paired(second));
}

/// Four fragments make two volumes, each a device id and its size with a
/// space between, and the volumes are joined by `" | "`.
pub proof fn lemma_two_volumes(a1: Seq<char>, b1: Seq<char>, a2: Seq<char>, b2: Seq<char>)
    ensures
        paired(seq![a1, b1, a2, b2]) == seq![a1 + " "@ + b1, a2 + " "@ + b2],
        volumes_text(paired(seq![a1, b1, a2, b2])) == a1 + " "@ + b1 + " | "@ + a2 + " "@ + b2,
{
    let volumes = paired(seq![a1, b1, a2, b2]);
    assert(volumes =~= seq![a1 + " "@ + b1, a2 + " "@ + b2]);
    assert(volumes.drop_last() =~= seq![a1 + " "@ + b1]);
    reveal_with_fuel(crate::normalize::joined, 3);
    assert(volumes_text(volumes) =~= a1 + " "@ + b1 + " | "@ + a2 + " "@ + b2);
}

/// A fragment without a partner stands alone as the last volume.
pub proof fn lemma_odd_fragment_stands_alone(fragments: Seq<Seq<char>>)
    requires
        fragments.len() % 2 == 1,
    ensures
        paired(fragments).len() == (fragments.len() + 1) / 2,
        paired(fragments).last() == fragments.last(),
{
}

/// The keys that the laws below tell apart are different texts.
pub proof fn lemma_keys_differ()
    ensures
        KEY_NAME@ != KEY_CAPTION@,
        KEY_NAME@ != KEY_VERSION@,
        KEY_RATE@ != KEY_CAPTION@,
        KEY_RATE@ != KEY_VERSION@,
        KEY_RATE@ != KEY_NAME@,
        KEY_RATE@ != KEY_WIDTH@,
        KEY_RATE@ != KEY_HEIGHT@,
{
    reveal_strlit("Caption");
    reveal_strlit("Version");
    reveal_strlit("Name");
    reveal_strlit("CurrentHorizontalResolution");
    reveal_strlit("CurrentVerticalResolution");
    reveal_strlit("CurrentRefreshRate");
    assert(KEY_NAME@.len() == 4);
    assert(KEY_CAPTION@.len() == 7);
    assert(KEY_VERSION@.len() == 7);
    assert(KEY_RATE@.len() == 18);
    assert(KEY_WIDTH@.len() == 27);
    assert(KEY_HEIGHT@.len() == 25);
}

/// A refresh rate that is no number is never an error: the rate is then 60.
pub proof fn lemma_rate_defaults(state: Gathered, value: Seq<char>)
    ensures
        taken(state, KEY_RATE@, value) is Ok,
        parsed_u64(value) is None ==> taken(state, KEY_RATE@, value) == Ok::<
            Gathered,
            CollectError,
        >(Gathered { rate: Some(60), ..state }),
        parsed_u64(value) matches Some(rate) ==> taken(state, KEY_RATE@, value)
            == Ok::<Gathered, CollectError>(Gathered { rate: Some(rate), ..state }),
{
    lemma_keys_differ();
}

/// The values of the `Name` lines among `lines`, in order.
pub open spec fn name_values(lines: Seq<Seq<char>>) -> Seq<Seq<char>>
    decreases lines.len(),
{
    if lines.len() == 0 {
        Seq::empty()
    } else {
        let rest = name_values(lines.drop_first());
        match key_value(lines.first()) {
            Some((key, value)) => if key == KEY_NAME@ {
                seq![value] + rest
            } else {
                rest
            },
            None => rest,
        }
    }
}

/// The names that a state has bound: the processor's, then the video controller's.
pub open spec fn bound_names(state: Gathered) -> Seq<Seq<char>> {
    match (state.cpu, state.gpu) {
        (Some(cpu), Some(gpu)) => seq![cpu, gpu],
        (Some(cpu), None) => seq![cpu],
        _ => Seq::empty(),
    }
}

/// The first two of `names`.
pub open spec fn first_two(names: Seq<Seq<char>>) -> Seq<Seq<char>> {
    if names.len() > 2 {
        names.subrange(0, 2)
    } else {
        names
    }
}

/// One line binds at most one name, and only a `Name` line binds one: the
/// processor's where none is bound, the video controller's where one is,
/// none where both are.
pub proof fn lemma_line_binds_next_name(state: Gathered, line: Seq<char>)
    requires
        state.gpu is Some ==> state.cpu is Some,
        scanned(state, line) is Ok,
    ensures
        ({
            let next = scanned(state, line)->Ok_0;
            &&& next.gpu is Some ==> next.cpu is Some
            &&& bound_names(next) == first_two(bound_names(state) + name_values(seq![line]))
        }),
{
    lemma_keys_differ();
    let lines = seq![line];
    assert(lines.drop_first() =~= Seq::<Seq<char>>::empty());
    assert(name_values(lines.drop_first()) =~= Seq::<Seq<char>>::empty());
    let next = scanned(state, line)->Ok_0;
    let names = bound_names(state) + name_values(lines);
    match key_value(line) {
        Some((key, value)) => {
            if key == KEY_NAME@ {
                assert(name_values(lines) =~= seq![value]);
                assert(bound_names(next) =~= first_two(names));
            } else {
                assert(name_values(lines) =~= Seq::<Seq<char>>::empty());
                assert(next.cpu == state.cpu && next.gpu == state.gpu);
                assert(bound_names(next) =~= first_two(names));
            }
        },
        None => {
            assert(name_values(lines) =~= Seq::<Seq<char>>::empty());
            assert(bound_names(next) =~= first_two(names));
        },
    }
}

/// Names bind in the order of their lines: after any lines, the names
/// bound are the first two of those bound before and the values of the
/// `Name` lines. So the first `Name` line names the processor, the second
/// the video controller, and no later one replaces either.
pub proof fn lemma_names_bind_in_order(state: Gathered, lines: Seq<Seq<char>>)
    requires
        state.gpu is Some ==> state.cpu is Some,
        scanned_all(state, lines) is Ok,
    ensures
        ({
            let end = scanned_all(state, lines)->Ok_0;
            &&& end.gpu is Some ==> end.cpu is Some
            &&& bound_names(end) == first_two(bound_names(state) + name_values(lines))
        }),
    decreases lines.len(),
{
    if lines.len() == 0 {
        assert(bound_names(state) + name_values(lines) =~= bound_names(state));
    } else {
        let line = lines.first();
        let rest = lines.drop_first();
        let next = scanned(state, line)->Ok_0;
        lemma_line_binds_next_name(state, line);
        lemma_names_bind_in_order(next, rest);
        let one = seq![line];
        assert(one.first() == line);
        assert(one.drop_first() =~= Seq::<Seq<char>>::empty());
        assert(name_values(one.drop_first()) =~= Seq::<Seq<char>>::empty());
        let here = name_values(one);
        let later = name_values(rest);
        assert(name_values(lines) =~= here + later) by {
            match key_value(line) {
                Some((key, value)) => {
                    if key == KEY_NAME@ {
                        assert(here =~= seq![value]);
                    } else {
                        assert(here =~= Seq::<Seq<char>>::empty());
                    }
                },
                None => {
                    assert(here =~= Seq::<Seq<char>>::empty());
                },
            }
        }
        let before = bound_names(state);
        assert(first_two(first_two(before + here) + later) =~= first_two(before + (here + later)));
        assert(before + (here + later) =~= before + name_values(lines));
    }
}

/// From the start, the first `Name` line names the processor and the
/// second the video controller, whatever follows.
pub proof fn lemma_first_name_is_cpu_second_is_gpu(lines: Seq<Seq<char>>)
    requires
        scanned_all(nothing(), lines) is Ok,
    ensures
        ({
            let end = scanned_all(nothing(), lines)->Ok_0;
            let names = name_values(lines);
            &&& names.len() == 0 ==> name_slot(end) == NameSlot::ExpectCpu
            &&& names.len() == 1 ==> name_slot(end) == NameSlot::ExpectGpu && end.cpu == Some(
                names[0],
            )
            &&& names.len() >= 2 ==> name_slot(end) == NameSlot::Done && end.cpu == Some(names[0])
                && end.gpu == Some(names[1])
        }),
{
    lemma_names_bind_in_order(nothing(), lines);
    let end = scanned_all(nothing(), lines)->Ok_0;
    let names = name_values(lines);
    assert(bound_names(nothing()) + names =~= names);
    let bound = bound_names(end);
    if names.len() >= 2 {
        assert(bound.len() == 2);
        assert(bound[0] == names[0]);
        assert(bound[1] == names[1]);
    } else if names.len() == 1 {
        assert(bound.len() == 1);
        assert(bound[0] == names[0]);
    } else {
        assert(bound.len() == 0);
    }
}

/// The text collector is a function of the command's output: two results
/// for one output hold the same facts and the same size class.
pub proof fn lemma_collect_is_deterministic(
    output: Seq<char>,
    first: Result<(FactSet, bool), CollectError>,
    second: Result<(FactSet, bool), CollectError>,
)
    requires
        outcome(first) == collected(output),
        outcome(second) == collected(output),
    ensures
        outcome(first) == outcome(second),
        first is Ok <==> second is Ok,
        first matches Ok(a) ==> second matches Ok(b) && a.0@ == b.0@ && a.1 == b.1,
{
}

/// The normaliser is a function of the raw records: two fact sets made
/// from the same records, architecture and uptime hold the same texts.
pub proof fn lemma_query_facts_are_deterministic(
    info: Info,
    arch: Seq<char>,
    uptime_minutes: int,
    first: FactSet,
    second: FactSet,
)
    requires
        first@ == query_fact_map(info, arch, uptime_minutes),
        second@ == query_fact_map(info, arch, uptime_minutes),
    ensures
        first@ == second@,
        forall|category: StatType| #[trigger]
            first@.contains_key(category) && second@.contains_key(category) && first@[category]
                == second@[category],
{
    assert forall|category: StatType| #[trigger]
        first@.contains_key(category) && second@.contains_key(category) by {
        match category {
            StatType::Os => {},
            StatType::Kernel => {},
            StatType::Cpu => {},
            StatType::Gpu => {},
            StatType::Resolution => {},
            StatType::Ram => {},
            StatType::Uptime => {},
            StatType::Disks => {},
        }
    }
}

/// The rendering has all the lines of the art and at least the fact
/// block, the empty row below it and the swatch row, and no more; the
/// username header stands on the start row.
pub proof fn lemma_rendering_shape(
    labels: Seq<Seq<char>>,
    values: Seq<Seq<char>>,
    art: Seq<Seq<char>>,
    swatch: Seq<char>,
    full: bool,
    username: Seq<char>,
)
    ensures
        ({
            let lines = rendered(labels, values, art, swatch, full, username);
            let start = start_row(art.len(), labels.len(), full);
            let block = labels.len() + 2;
            &&& lines.len() == if art.len() >= start + block + 2 {
                art.len()
            } else {
                start + block + 2
            }
            &&& start < lines.len()
            &&& lines[start as int] == header_line(
                art_line(art, start as int),
                header_pad(content_width(labels, values, username), username),
                username,
            )
            &&& forall|i: int|
                0 <= i < start ==> #[trigger] lines[i] == art_line(art, i)
        }),
{
}

/// The renderer is a function of its inputs: two renderings of the same
/// rows, art, swatch, size class and username are the same lines.
pub proof fn lemma_render_is_deterministic(
    labels: Seq<Seq<char>>,
    values: Seq<Seq<char>>,
    art: Seq<Seq<char>>,
    swatch: Seq<char>,
    full: bool,
    username: Seq<char>,
    first: Seq<String>,
    second: Seq<String>,
)
    requires
        texts(first) == rendered(labels, values, art, swatch, full, username),
        texts(second) == rendered(labels, values, art, swatch, full, username),
    ensures
        first.len() == second.len(),
        forall|i: int| 0 <= i < first.len() ==> (#[trigger] first[i])@ == second[i]@,
{
    assert(texts(first).len() == first.len());
    assert(texts(second).len() == second.len());
    assert forall|i: int| 0 <= i < first.len() implies (#[trigger] first[i])@ == second[i]@ by {
        assert(texts(first)[i] == first[i]@);
        assert(texts(second)[i] == second[i]@);
    }
}

/// Writing a number and reading it back gives the number: what the
/// normaliser formats, the text collector parses.
pub proof fn lemma_decimal_round_trip(n: nat)
    ensures
        decimal_text(n).len() > 0,
        all_digits(decimal_text(n)),
        decimal_value(decimal_text(n)) == n,
    decreases n,
{
    if n < 10 {
        let t = decimal_text(n);
        assert(t.drop_last() =~= Seq::<char>::empty());
        assert(decimal_value(t.drop_last()) == 0);
    } else {
        lemma_decimal_round_trip(n / 10);
        let t = decimal_text(n);
        assert(t.drop_last() =~= decimal_text(n / 10));
        assert(t.last() == digit_char(n % 10));
    }
}

/// Dictionary order is transitive.
pub proof fn lemma_lex_less_transitive(a: Seq<char>, b: Seq<char>, c: Seq<char>)
    requires
        lex_less(a, b),
        lex_less(b, c),
    ensures
        lex_less(a, c),
    decreases a.len(),
{
    if a.len() > 0 && a.first() == b.first() && b.first() == c.first() {
        lemma_lex_less_transitive(a.drop_first(), b.drop_first(), c.drop_first());
    }
}

/// Nothing comes before itself in dictionary order.
pub proof fn lemma_lex_less_irreflexive(a: Seq<char>)
    ensures
        !lex_less(a, a),
    decreases a.len(),
{
    if a.len() > 0 {
        lemma_lex_less_irreflexive(a.drop_first());
    }
}

/// The greatest version is one that none of the versions comes after, and
/// unless it is empty it is one of them.
pub proof fn lemma_greatest_is_greatest(versions: Seq<Seq<char>>)
    ensures
        forall|i: int| 0 <= i < versions.len() ==> !lex_less(greatest(versions), #[trigger] versions[i]),
        greatest(versions).len() > 0 ==> versions.contains(greatest(versions)),
    decreases versions.len(),
{
    if versions.len() > 0 {
        let rest = versions.drop_last();
        let last = versions.last();
        let best = greatest(rest);
        lemma_greatest_is_greatest(rest);
        assert forall|i: int| 0 <= i < versions.len() implies !lex_less(
            greatest(versions),
            #[trigger] versions[i],
        ) by {
            if i < rest.len() {
                assert(versions[i] == rest[i]);
                if lex_less(best, last) && lex_less(last, versions[i]) {
                    lemma_lex_less_transitive(best, last, versions[i]);
                }
            } else {
                lemma_lex_less_irreflexive(last);
            }
        }
        if greatest(versions).len() > 0 {
            if lex_less(best, last) {
                assert(versions[versions.len() - 1] == last);
            } else {
                let at = choose|at: int| 0 <= at < rest.len() && rest[at] == best;
                assert(versions[at] == best);
            }
        }
    }
}

/// The fragments that the text collector would take from the disk
/// records: each device id between brackets, then its size in GiB.
pub open spec fn fragments_of(disks: Seq<Win32_LogicalDisk>) -> Seq<Seq<char>> {
    Seq::new(
        2 * disks.len(),
        |i: int|
            if i % 2 == 0 {
                device_text(disks[i / 2].device_id@)
            } else {
                size_text(disks[i / 2].size as nat)
            },
    )
}

/// The two collectors agree on disks: the disk texts of the query records
/// are the pairs of the fragments that the same disks give line by line.
pub proof fn lemma_typed_disks_are_paired_fragments(disks: Seq<Win32_LogicalDisk>)
    ensures
        paired(fragments_of(disks)) == disk_texts(disks),
{
    let fragments = fragments_of(disks);
    assert(paired(fragments).len() == disks.len());
    assert forall|i: int| 0 <= i < disks.len() implies paired(fragments)[i] == disk_texts(
        disks,
    )[i] by {
        assert(fragments[2 * i] == device_text(disks[i].device_id@));
        assert(fragments[2 * i + 1] == size_text(disks[i].size as nat));
    }
    assert(paired(fragments) =~= disk_texts(disks));
}

/// What the text collector reads as processor and video controller are
/// the values of the first and the second `Name` line of the output; no
/// later `Name` line changes either.
pub proof fn lemma_collected_names(output: Seq<char>)
    requires
        collected(output) is Ok,
    ensures
        ({
            let facts = collected(output)->Ok_0.0;
            let names = name_values(split(output, '\n').drop_first());
            &&& names.len() >= 2
            &&& facts[StatType::Cpu] == names[0]
            &&& facts[StatType::Gpu] == names[1]
        }),
{
    let lines = split(output, '\n').drop_first();
    lemma_first_name_is_cpu_second_is_gpu(lines);
}

/// The version that a segment names is what follows its first module tag,
/// up to the next underscore or the end; where nothing follows, it names none.
pub proof fn lemma_version_follows_the_tag(segment: Seq<char>, at: int)
    requires
        first_occurrence(segment, MODULE_TAG@, at),
    ensures
        ({
            let rest = segment.subrange(at + MODULE_TAG@.len(), segment.len() as int);
            let version = rest.subrange(0, first_cut(rest, '_'));
            tagged_version(segment) == if version.len() > 0 {
                Some(version)
            } else {
                None
            }
        }),
{
    lemma_first_occurrence_unique(segment, MODULE_TAG@, at);
}

/// A segment that is the module tag and no more names no version.
pub proof fn lemma_bare_tag_names_no_version()
    ensures
        tagged_version(MODULE_TAG@) is None,
{
    let tag = MODULE_TAG@;
    assert(tag.subrange(0, tag.len() as int) =~= tag);
    assert(first_occurrence(tag, tag, 0));
    lemma_version_follows_the_tag(tag, 0);
}

/// A version under the version 3 engine key is the legacy version whether
/// or not the version 1 key is there; an absent version 3 key leaves the
/// choice to the version 1 key.
pub proof fn lemma_legacy_prefers_version_3(version: String, engine_1: KeyRead)
    ensures
        legacy_version(KeyRead::Value(version), engine_1) == Ok::<String, RegistryError>(version),
        legacy_version(KeyRead::NoKey, KeyRead::Value(version)) == Ok::<String, RegistryError>(
            version,
        ),
        legacy_version(KeyRead::NoKey, KeyRead::NoKey) == Err::<String, RegistryError>(
            RegistryError::KeyNotFound,
        ),
{
}

} // verus!
