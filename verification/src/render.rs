//! The layout renderer: the fact rows beside the ASCII art, line by line.
use crate::chars::{byte_len, byte_length, push_repeated, repeated, trim_end, trim_end_of};
use crate::normalize::texts;
use vstd::prelude::*;
use vstd::string::StringExecFns;

verus! {

/// A terminal with more lines than this gets the large art block.
pub const FULL_TERMINAL_LINES: u64 = 37;

/// The rows above the facts: the username header and the rule.
pub const HEADER_ROWS: usize = 2;

/// In the large art block, a fact block of more rows than this is lifted
/// by the surplus.
pub const ANCHOR_ROWS: usize = 9;

/// The printed width of the colour swatch.
pub const SWATCH_WIDTH: u128 = 24;

/// The extra indent of the colour swatch.
pub const SWATCH_INDENT: u128 = 4;

/// What stands between the art and the fact block.
pub const GAP: &'static str = "  ";

/// The style of the header, the rule and the labels.
pub const ACCENT: &'static str = "\x1b[1m\x1b[38;2;137;187;234m";

/// Ends the style of a label.
pub const RESET: &'static str = "\x1b[0m";

/// The styled colon between a label and its value.
pub const SEPARATOR: &'static str = " \x1b[38;2;137;187;234m: \x1b[38;2;224;155;187m";

/// The mark in front of the username.
pub const AT: &'static str = "@";

/// The character the rule is drawn with.
pub const DASH: &'static str = "\u{2014}";

/// One blank.
pub const BLANK: &'static str = " ";

/// One fact as it is printed: a label and its value.
#[derive(Clone, Debug)]
pub struct FactRow {
    pub label: String,
    pub value: String,
}

/// The two art blocks and the colour swatch printed below the facts.
#[derive(Clone, Debug)]
pub struct ArtSet {
    pub full: Vec<String>,
    pub mini: Vec<String>,
    pub swatch: String,
}

/// The labels of `rows`, in order.
pub open spec fn labels_of(rows: Seq<FactRow>) -> Seq<Seq<char>> {
    Seq::new(rows.len(), |i: int| rows[i].label@)
}

/// The values of `rows`, in order.
pub open spec fn values_of(rows: Seq<FactRow>) -> Seq<Seq<char>> {
    Seq::new(rows.len(), |i: int| rows[i].value@)
}

/// The greatest byte length among `items`; zero for none.
pub open spec fn widest(items: Seq<Seq<char>>) -> nat
    decreases items.len(),
{
    if items.len() == 0 {
        0
    } else {
        let rest = widest(items.drop_last());
        let last = byte_len(items.last());
        if last > rest {
            last
        } else {
            rest
        }
    }
}

/// The row of the username header: the fact block is centred on the art,
/// lifted in the large block by the rows it has beyond `ANCHOR_ROWS`, and
/// never starts above the first row.
pub open spec fn start_row(art_height: nat, fact_count: nat, full: bool) -> nat {
    let block = fact_count + 2;
    let centred = if art_height >= block {
        (art_height - block) / 2
    } else {
        0
    };
    let lift = if full && block > 9 {
        block - 9
    } else {
        0
    };
    if centred >= lift {
        (centred - lift) as nat
    } else {
        0
    }
}

/// How many lines are rendered: all of the art, and at least the fact
/// block, the empty row below it and the swatch row.
pub open spec fn row_count(art_height: nat, fact_count: nat, full: bool) -> nat {
    let needed = start_row(art_height, fact_count, full) + fact_count + 4;
    if art_height >= needed {
        art_height
    } else {
        needed
    }
}

/// The width of the fact block: the widest label, one column, and the
/// widest of the username and the values.
pub open spec fn content_width(
    labels: Seq<Seq<char>>,
    values: Seq<Seq<char>>,
    username: Seq<char>,
) -> nat {
    let name = byte_len(username);
    let value = widest(values);
    widest(labels) + 1 + if name > value {
        name
    } else {
        value
    }
}

/// The blanks in front of the username, which centre it on the block.
pub open spec fn header_pad(width: nat, username: Seq<char>) -> nat {
    if width >= byte_len(username) {
        ((width - byte_len(username)) / 2) as nat
    } else {
        0
    }
}

/// The blanks in front of the swatch.
pub open spec fn swatch_pad(width: nat) -> nat {
    if width >= 24 {
        ((width - 24) / 2 + 4) as nat
    } else {
        4
    }
}

/// The art on row `i`; nothing once the art is used up.
pub open spec fn art_line(art: Seq<Seq<char>>, i: int) -> Seq<char> {
    if 0 <= i < art.len() {
        art[i]
    } else {
        Seq::empty()
    }
}

/// The header row: the art, then the centred username behind its mark.
pub open spec fn header_line(art_part: Seq<char>, pad: nat, username: Seq<char>) -> Seq<char> {
    art_part + GAP@ + repeated(BLANK@, pad) + ACCENT@ + AT@ + trim_end_of(username)
}

/// The rule row: the art, then `width` dashes.
pub open spec fn rule_line(art_part: Seq<char>, width: nat) -> Seq<char> {
    art_part + GAP@ + ACCENT@ + repeated(DASH@, width)
}

/// A fact row: the art, the label padded to `key_width`, the separator
/// and the value without its trailing whitespace.
pub open spec fn fact_line(
    art_part: Seq<char>,
    label: Seq<char>,
    value: Seq<char>,
    key_width: nat,
) -> Seq<char> {
    art_part + GAP@ + ACCENT@ + label + RESET@ + repeated(
        BLANK@,
        (key_width - byte_len(label)) as nat,
    ) + SEPARATOR@ + trim_end_of(value)
}

/// The swatch row: the art, the indent and the swatch.
pub open spec fn swatch_line(art_part: Seq<char>, pad: nat, swatch: Seq<char>) -> Seq<char> {
    art_part + repeated(BLANK@, pad) + swatch
}

/// Line `i` of the rendering.
pub open spec fn rendered_line(
    labels: Seq<Seq<char>>,
    values: Seq<Seq<char>>,
    art: Seq<Seq<char>>,
    swatch: Seq<char>,
    full: bool,
    username: Seq<char>,
    i: int,
) -> Seq<char> {
    let start = start_row(art.len(), labels.len(), full) as int;
    let width = content_width(labels, values, username);
    let art_part = art_line(art, i);
    if i == start {
        header_line(art_part, header_pad(width, username), username)
    } else if i == start + 1 {
        rule_line(art_part, width)
    } else if start + 2 <= i < start + 2 + labels.len() {
        fact_line(art_part, labels[i - start - 2], values[i - start - 2], widest(labels))
    } else if i == start + labels.len() + 3 {
        swatch_line(art_part, swatch_pad(width), swatch)
    } else {
        art_part
    }
}

/// The whole rendering, top to bottom.
pub open spec fn rendered(
    labels: Seq<Seq<char>>,
    values: Seq<Seq<char>>,
    art: Seq<Seq<char>>,
    swatch: Seq<char>,
    full: bool,
    username: Seq<char>,
) -> Seq<Seq<char>> {
    Seq::new(
        row_count(art.len(), labels.len(), full),
        |i: int| rendered_line(labels, values, art, swatch, full, username, i),
    )
}

/// Whether a terminal of `lines` lines gets the large art block.
pub fn is_full_terminal(lines: usize) -> (full: bool)
    ensures
        full == (lines > 37),
{
    lines as u64 > FULL_TERMINAL_LINES
}

/// No item is wider than the widest.
pub proof fn lemma_widest_bounds(items: Seq<Seq<char>>, i: int)
    requires
        0 <= i < items.len(),
    ensures
        byte_len(items[i]) <= widest(items),
    decreases items.len(),
{
    if i < items.len() - 1 {
        lemma_widest_bounds(items.drop_last(), i);
    }
}

/// The row of the username header.
pub fn first_row(art_height: usize, fact_count: usize, full: bool) -> (start: usize)
    requires
        fact_count + 2 <= usize::MAX,
    ensures
        start == start_row(art_height as nat, fact_count as nat, full),
{
    let block = fact_count + HEADER_ROWS;
    let centred = if art_height >= block {
        (art_height - block) / 2
    } else {
        0
    };
    let lift = if full && block > ANCHOR_ROWS {
        block - ANCHOR_ROWS
    } else {
        0
    };
    if centred >= lift {
        centred - lift
    } else {
        0
    }
}

/// Whether the rendering of `fact_count` facts beside art of `art_height`
/// lines has a number of lines that a vector can hold.
pub fn fits(art_height: usize, fact_count: usize, full: bool) -> (ok: bool)
    ensures
        ok == (row_count(art_height as nat, fact_count as nat, full) <= usize::MAX),
{
    if fact_count > usize::MAX - 4 {
        return false;
    }
    let start = first_row(art_height, fact_count, full);
    start <= usize::MAX - 4 - fact_count
}

/// The greatest byte length among the labels of `rows`.
pub fn widest_label(rows: &Vec<FactRow>) -> (width: usize)
    ensures
        width == widest(labels_of(rows@)),
{
    let mut width: usize = 0;
    let mut i: usize = 0;
    while i < rows.len()
        invariant
            i <= rows.len(),
            width == widest(labels_of(rows@).subrange(0, i as int)),
        decreases rows.len() - i,
    {
        proof {
            let next = labels_of(rows@).subrange(0, i + 1);
            assert(next.drop_last() =~= labels_of(rows@).subrange(0, i as int));
        }
        let length = byte_length(rows[i].label.as_str());
        if length > width {
            width = length;
        }
        i += 1;
    }
    assert(labels_of(rows@).subrange(0, i as int) =~= labels_of(rows@));
    width
}

/// The greatest byte length among the values of `rows`.
pub fn widest_value(rows: &Vec<FactRow>) -> (width: usize)
    ensures
        width == widest(values_of(rows@)),
{
    let mut width: usize = 0;
    let mut i: usize = 0;
    while i < rows.len()
        invariant
            i <= rows.len(),
            width == widest(values_of(rows@).subrange(0, i as int)),
        decreases rows.len() - i,
    {
        proof {
            let next = values_of(rows@).subrange(0, i + 1);
            assert(next.drop_last() =~= values_of(rows@).subrange(0, i as int));
        }
        let length = byte_length(rows[i].value.as_str());
        if length > width {
            width = length;
        }
        i += 1;
    }
    assert(values_of(rows@).subrange(0, i as int) =~= values_of(rows@));
    width
}

/// Lays the fact rows out beside the art.
///
/// The username header stands on row `start_row`, the rule below it, then
/// one row per fact; one row is left empty and the next holds the swatch.
/// Every other row is the art alone, and rows below the art have no art.
pub fn render_rows(
    rows: &Vec<FactRow>,
    art: &Vec<String>,
    swatch: &str,
    full: bool,
    username: &str,
) -> (lines: Vec<String>)
    requires
        row_count(art.len() as nat, rows.len() as nat, full) <= usize::MAX,
    ensures
        texts(lines@) == rendered(
            labels_of(rows@),
            values_of(rows@),
            texts(art@),
            swatch@,
            full,
            username@,
        ),
        lines.len() == row_count(art.len() as nat, rows.len() as nat, full),
        lines.len() >= art.len(),
        lines.len() >= start_row(art.len() as nat, rows.len() as nat, full) + rows.len() + 4,
        lines@[start_row(art.len() as nat, rows.len() as nat, full) as int]@ == header_line(
            art_line(texts(art@), start_row(art.len() as nat, rows.len() as nat, full) as int),
            header_pad(content_width(labels_of(rows@), values_of(rows@), username@), username@),
            username@,
        ),
{
    let ghost labels = labels_of(rows@);
    let ghost values = values_of(rows@);
    let ghost art_texts = texts(art@);
    let count = rows.len();
    let start = first_row(art.len(), count, full);
    let needed = start + count + 4;
    let total = if art.len() >= needed {
        art.len()
    } else {
        needed
    };
    let key_width = widest_label(rows);
    let value_width = widest_value(rows);
    let name_width = byte_length(username);
    let width: u128 = key_width as u128 + 1 + if name_width > value_width {
        name_width as u128
    } else {
        value_width as u128
    };
    let name_pad: u128 = (width - name_width as u128) / 2;
    let legend_pad: u128 = if width >= SWATCH_WIDTH {
        (width - SWATCH_WIDTH) / 2 + SWATCH_INDENT
    } else {
        SWATCH_INDENT
    };
    let mut lines: Vec<String> = Vec::new();
    let mut i: usize = 0;
    while i < total
        invariant
            i <= total,
            count == rows.len(),
            labels == labels_of(rows@),
            values == values_of(rows@),
            art_texts == texts(art@),
            start == start_row(art.len() as nat, count as nat, full),
            start + count + 4 <= usize::MAX,
            total == row_count(art.len() as nat, count as nat, full),
            key_width == widest(labels),
            width == content_width(labels, values, username@),
            name_pad == header_pad(width as nat, username@),
            legend_pad == swatch_pad(width as nat),
            lines.len() == i,
            forall|k: int|
                0 <= k < i ==> (#[trigger] lines@[k])@ == rendered_line(
                    labels,
                    values,
                    art_texts,
                    swatch@,
                    full,
                    username@,
                    k,
                ),
        decreases total - i,
    {
        let mut line = String::new();
        if i < art.len() {
            line.append(art[i].as_str());
        }
        assert(line@ =~= art_line(art_texts, i as int));
        if i == start {
            line.append(GAP);
            push_repeated(&mut line, BLANK, name_pad);
            line.append(ACCENT);
            line.append(AT);
            line.append(trim_end(username));
        } else if i == start + 1 {
            line.append(GAP);
            line.append(ACCENT);
            push_repeated(&mut line, DASH, width);
        } else if i >= start + 2 && i < start + 2 + count {
            let row = &rows[i - start - 2];
            proof {
                lemma_widest_bounds(labels, i - start - 2);
                assert(labels[i - start - 2] == row.label@);
                assert(values[i - start - 2] == row.value@);
            }
            let label_width = byte_length(row.label.as_str());
            line.append(GAP);
            line.append(ACCENT);
            line.append(row.label.as_str());
            line.append(RESET);
            push_repeated(&mut line, BLANK, (key_width - label_width) as u128);
            line.append(SEPARATOR);
            line.append(trim_end(row.value.as_str()));
        } else if i == start + count + 3 {
            push_repeated(&mut line, BLANK, legend_pad);
            line.append(swatch);
        }
        assert(line@ =~= rendered_line(
            labels,
            values,
            art_texts,
            swatch@,
            full,
            username@,
            i as int,
        ));
        lines.push(line);
        i += 1;
    }
    assert(texts(lines@) =~= rendered(labels, values, art_texts, swatch@, full, username@));
    lines
}

} // verus!
