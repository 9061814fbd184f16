//! The table of the hops, and the lines around it.
use vstd::prelude::*;

use crate::address::Ipv4Address;
use crate::status::{classify_status, HopFigures, MeasuredHop, MonitorStatus, Trend};
use crate::text::{
    append_left_aligned, append_right_aligned, decimal_text,
};

verus! {

/// How many blocks a trend is drawn with.
pub const TREND_WIDTH: usize = 16;

/// The block of a level: the higher the level, the higher the block, up to the
/// seventh.
pub open spec fn block(level: u8) -> char {
    if level >= 7 {
        '\u{2588}'
    } else {
        (0x2581 + level) as char
    }
}

/// A trend, drawn with `width` blocks: where there are more or fewer levels,
/// they are picked at equal distances.
pub open spec fn sparkline(levels: Seq<u8>, flat: bool, width: nat) -> Seq<char> {
    if levels.len() == 0 || width == 0 {
        "-"@
    } else if flat {
        Seq::new(width, |i: int| block(3))
    } else {
        Seq::new(width, |i: int| block(levels[i * levels.len() as int / width as int]))
    }
}

fn block_text(level: u8) -> (text: &'static str)
    ensures
        text@ == seq![block(level)],
{
    proof {
        reveal_strlit("\u{2581}");
        reveal_strlit("\u{2582}");
        reveal_strlit("\u{2583}");
        reveal_strlit("\u{2584}");
        reveal_strlit("\u{2585}");
        reveal_strlit("\u{2586}");
        reveal_strlit("\u{2587}");
        reveal_strlit("\u{2588}");
    }
    let text: &'static str = match level {
        0 => "\u{2581}",
        1 => "\u{2582}",
        2 => "\u{2583}",
        3 => "\u{2584}",
        4 => "\u{2585}",
        5 => "\u{2586}",
        6 => "\u{2587}",
        _ => "\u{2588}",
    };
    assert(text@ =~= seq![block(level)]);
    text
}

/// The place of the level that the `i`-th of `width` blocks shows.
fn level_index(i: usize, levels: usize, width: usize) -> (at: usize)
    requires
        i < width,
        levels > 0,
    ensures
        at == i * levels / width as int,
        at < levels,
{
    assert(0 <= i * levels <= 0xffff_ffff_ffff_ffff * 0xffff_ffff_ffff_ffff) by (nonlinear_arith)
        requires
            0 <= i <= 0xffff_ffff_ffff_ffff,
            0 <= levels <= 0xffff_ffff_ffff_ffff,
    ;
    assert(i * levels / (width as int) < levels) by (nonlinear_arith)
        requires
            0 <= i < width,
            levels > 0,
    ;
    assert(i * levels / width as int >= 0) by (nonlinear_arith)
        requires
            0 <= i < width,
            levels > 0,
    ;
    ((i as u128 * levels as u128) / width as u128) as usize
}

/// Draws a trend with `width` blocks.
pub fn render_sparkline(trend: &Trend, width: usize) -> (line: String)
    ensures
        line@ == sparkline(trend.levels@, trend.flat, width as nat),
{
    if trend.levels.len() == 0 || width == 0 {
        return "-".to_owned();
    }
    let mut line: String = String::new();
    let mut i: usize = 0;
    while i < width
        invariant
            i <= width,
            trend.levels.len() > 0,
            line@ == sparkline(trend.levels@, trend.flat, width as nat).take(i as int),
        decreases width - i,
    {
        if trend.flat {
            line.append(block_text(3));
        } else {
            line.append(block_text(trend.levels[level_index(i, trend.levels.len(), width)]));
        }
        i = i + 1;
        assert(line@ =~= sparkline(trend.levels@, trend.flat, width as nat).take(i as int));
    }
    assert(line@ =~= sparkline(trend.levels@, trend.flat, width as nat));
    line
}

/// A round-trip time, or a dash for none.
pub open spec fn rtt_text(rtt: Option<String>) -> Seq<char> {
    match rtt {
        Some(text) => text@,
        None => "-"@,
    }
}

/// A round-trip time, or a dash for none.
pub fn format_rtt(rtt: &Option<String>) -> (text: String)
    ensures
        text@ == rtt_text(*rtt),
{
    match rtt {
        Some(text) => text.clone(),
        None => "-".to_owned(),
    }
}

/// The line on a hop that was probed in the search for the target, with the
/// round-trip time in milliseconds as text.
pub open spec fn discovery_text(
    ttl: u8,
    source_ip: Option<Ipv4Address>,
    rtt: Option<Seq<char>>,
) -> Seq<char> {
    "ttl="@ + crate::text::left_aligned(crate::text::decimal(ttl as nat), 2) + if source_ip is Some
        && rtt is Some {
        "  "@ + crate::text::left_aligned(source_ip->0.dotted(), 14) + "  "@ + rtt->0 + "ms"@
    } else {
        "  *"@
    }
}

/// The line on a hop that was probed in the search for the target.
pub fn render_discovery_line(
    ttl: u8,
    source_ip: Option<Ipv4Address>,
    rtt: Option<&str>,
) -> (line: String)
    ensures
        line@ == discovery_text(
            ttl,
            source_ip,
            match rtt {
                Some(rtt) => Some(rtt@),
                None => None,
            },
        ),
{
    let mut line: String = "ttl=".to_owned();
    append_left_aligned(&mut line, decimal_text(ttl as u64).as_str(), 2);
    match (source_ip, rtt) {
        (Some(source_ip), Some(rtt)) => {
            line.append("  ");
            append_left_aligned(&mut line, source_ip.to_text().as_str(), 14);
            line.append("  ");
            line.append(rtt);
            line.append("ms");
        },
        _ => {
            line.append("  *");
        },
    }
    assert(line@ =~= discovery_text(
        ttl,
        source_ip,
        match rtt {
            Some(rtt) => Some(rtt@),
            None => None,
        },
    ));
    line
}

/// The width of the `i`-th column.
pub open spec fn column_width(i: int) -> nat {
    if i == 0 {
        4
    } else if i == 1 {
        15
    } else if i == 3 || i == 4 {
        5
    } else if i == 11 {
        16
    } else {
        6
    }
}

/// A cell of the `i`-th column, as wide as the column. The hop, its host and its
/// trend stand to the left, the figures to the right.
pub open spec fn aligned_cell(cell: Seq<char>, i: int) -> Seq<char> {
    if i == 0 || i == 1 || i == 11 {
        crate::text::left_aligned(cell, column_width(i))
    } else {
        crate::text::right_aligned(cell, column_width(i))
    }
}

/// Cells beside each other, with a space between two of them.
pub open spec fn cells_text(cells: Seq<Seq<char>>) -> Seq<char>
    decreases cells.len(),
{
    if cells.len() == 0 {
        Seq::empty()
    } else if cells.len() == 1 {
        aligned_cell(cells[0], 0)
    } else {
        cells_text(cells.drop_last()) + " "@ + aligned_cell(cells.last(), cells.len() - 1)
    }
}

/// A row of the table.
pub open spec fn row_text(cells: Seq<Seq<char>>) -> Seq<char> {
    cells_text(cells) + "\n"@
}

/// The width of the `i`-th column.
fn width_of_column(i: usize) -> (width: usize)
    ensures
        width == column_width(i as int),
{
    if i == 0 {
        4
    } else if i == 1 {
        15
    } else if i == 3 || i == 4 {
        5
    } else if i == 11 {
        16
    } else {
        6
    }
}

/// Appends a cell of the `i`-th column.
fn append_cell(out: &mut String, cell: &str, i: usize)
    ensures
        final(out)@ == old(out)@ + aligned_cell(cell@, i as int),
{
    if i == 0 || i == 1 || i == 11 {
        append_left_aligned(out, cell, width_of_column(i));
    } else {
        append_right_aligned(out, cell, width_of_column(i));
    }
}

/// Appends a row.
fn append_row(out: &mut String, cells: &Vec<String>)
    ensures
        final(out)@ == old(out)@ + row_text(crate::text::texts(cells@)),
{
    let ghost texts: Seq<Seq<char>> = crate::text::texts(cells@);
    let mut row: String = String::new();
    let mut i: usize = 0;
    assert(texts.take(0) =~= Seq::<Seq<char>>::empty());
    while i < cells.len()
        invariant
            i <= cells.len(),
            texts == crate::text::texts(cells@),
            row@ == cells_text(texts.take(i as int)),
        decreases cells.len() - i,
    {
        if i > 0 {
            row.append(" ");
        }
        append_cell(&mut row, cells[i].as_str(), i);
        i = i + 1;
        assert(texts.take(i as int).drop_last() =~= texts.take(i - 1));
        assert(texts.take(i as int).last() == cells@[i - 1]@);
        assert(row@ =~= cells_text(texts.take(i as int)));
    }
    assert(texts.take(texts.len() as int) =~= texts);
    row.append("\n");
    out.append(row.as_str());
}

/// The names of the columns.
pub open spec fn header_cells() -> Seq<Seq<char>> {
    seq![
        "Hop"@,
        "Host"@,
        "Loss%"@,
        "Sent"@,
        "Recv"@,
        "Last"@,
        "Avg"@,
        "Best"@,
        "Wrst"@,
        "StDev"@,
        "Jttr"@,
        "Trend"@,
    ]
}

/// The cells of a hop.
pub open spec fn hop_cells(hop: MeasuredHop) -> Seq<Seq<char>> {
    seq![
        crate::text::decimal(hop.report.ttl as nat),
        hop.report@.label(),
        hop.figures.loss@ + "%"@,
        crate::text::decimal(hop.report@.sent),
        crate::text::decimal(hop.report@.rtts.len()),
        rtt_text(hop.figures.last),
        rtt_text(hop.figures.average),
        rtt_text(hop.figures.best),
        rtt_text(hop.figures.worst),
        rtt_text(hop.figures.stdev),
        rtt_text(hop.figures.jitter),
        sparkline(hop.figures.trend.levels@, hop.figures.trend.flat, TREND_WIDTH as nat),
    ]
}

/// The table: the names of the columns, and a row for each hop.
pub open spec fn table_text(hops: Seq<MeasuredHop>) -> Seq<char>
    decreases hops.len(),
{
    if hops.len() == 0 {
        row_text(header_cells())
    } else {
        table_text(hops.drop_last()) + row_text(hop_cells(hops.last()))
    }
}

/// The cells of a hop.
fn cells_of(hop: &MeasuredHop) -> (cells: Vec<String>)
    ensures
        crate::text::texts(cells@) == hop_cells(*hop),
{
    let figures: &HopFigures = &hop.figures;
    let mut loss: String = figures.loss.clone();
    loss.append("%");
    let mut cells: Vec<String> = Vec::new();
    cells.push(decimal_text(hop.report.ttl as u64));
    cells.push(hop.report.host_label());
    cells.push(loss);
    cells.push(decimal_text(hop.report.statistics.sent()));
    cells.push(decimal_text(hop.report.statistics.received()));
    cells.push(format_rtt(&figures.last));
    cells.push(format_rtt(&figures.average));
    cells.push(format_rtt(&figures.best));
    cells.push(format_rtt(&figures.worst));
    cells.push(format_rtt(&figures.stdev));
    cells.push(format_rtt(&figures.jitter));
    cells.push(render_sparkline(&figures.trend, TREND_WIDTH));
    assert(crate::text::texts(cells@) =~= hop_cells(*hop));
    cells
}

/// Draws the table.
pub fn render_hop_table(hops: &[MeasuredHop]) -> (table: String)
    ensures
        table@ == table_text(hops@),
{
    let mut header: Vec<String> = Vec::new();
    header.push("Hop".to_owned());
    header.push("Host".to_owned());
    header.push("Loss%".to_owned());
    header.push("Sent".to_owned());
    header.push("Recv".to_owned());
    header.push("Last".to_owned());
    header.push("Avg".to_owned());
    header.push("Best".to_owned());
    header.push("Wrst".to_owned());
    header.push("StDev".to_owned());
    header.push("Jttr".to_owned());
    header.push("Trend".to_owned());
    assert(crate::text::texts(header@) =~= header_cells());
    let mut table: String = String::new();
    append_row(&mut table, &header);
    assert(table@ =~= row_text(header_cells()));
    let mut i: usize = 0;
    while i < hops.len()
        invariant
            i <= hops.len(),
            table@ == table_text(hops@.take(i as int)),
        decreases hops.len() - i,
    {
        let cells: Vec<String> = cells_of(&hops[i]);
        append_row(&mut table, &cells);
        i = i + 1;
        assert(hops@.take(i as int).drop_last() =~= hops@.take(i - 1));
    }
    assert(hops@.take(hops@.len() as int) =~= hops@);
    table
}

/// The line that tells the status.
pub open spec fn status_text(status: MonitorStatus) -> Seq<char> {
    "Status: "@ + crate::status::label_text(status) + " - "@ + crate::status::message_text(status)
}

/// The line that tells the status of the path.
pub fn render_status_line(hops: &[MeasuredHop]) -> (line: String)
    ensures
        line@ == status_text(crate::status::status_of(hops@)),
{
    let status: MonitorStatus = classify_status(hops);
    let mut line: String = "Status: ".to_owned();
    line.append(status.label());
    line.append(" - ");
    line.append(status.message());
    line
}

/// The table and the status below it.
pub open spec fn block_of(hops: Seq<MeasuredHop>) -> Seq<char> {
    table_text(hops) + status_text(crate::status::status_of(hops)) + "\n"@
}

/// Draws the table and the status below it.
pub fn render_monitor_block(hops: &[MeasuredHop]) -> (block: String)
    ensures
        block@ == block_of(hops@),
{
    let mut block: String = render_hop_table(hops);
    block.append(render_status_line(hops).as_str());
    block.append("\n");
    block
}

/// A trend is drawn with as many blocks as there is room for, or with a dash.
pub proof fn law_sparkline_fills_its_width(levels: Seq<u8>, flat: bool, width: nat)
    ensures
        if levels.len() == 0 || width == 0 {
            sparkline(levels, flat, width) == "-"@
        } else {
            sparkline(levels, flat, width).len() == width
        },
{
}

/// A trend of as many levels as there are blocks shows each of them once.
pub proof fn law_sparkline_shows_each_level(levels: Seq<u8>)
    requires
        levels.len() > 0,
    ensures
        sparkline(levels, false, levels.len()) == levels.map_values(|level: u8| block(level)),
{
    let n = levels.len() as int;
    assert forall|i: int| 0 <= i < n implies #[trigger] sparkline(levels, false, levels.len())[i]
        == block(levels[i]) by {
        vstd::arithmetic::div_mod::lemma_div_multiples_vanish(i, n);
        assert(i * n == n * i) by (nonlinear_arith);
    }
    assert(sparkline(levels, false, levels.len()) =~= levels.map_values(|level: u8| block(level)));
}

/// The blocks of a trend start with its first level, and never go back in it.
pub proof fn law_sparkline_goes_forward(levels: nat, width: nat, i: int, j: int)
    requires
        levels > 0,
        0 <= i <= j < width,
    ensures
        0 <= i * levels as int / width as int <= j * levels as int / width as int,
        j * levels as int / (width as int) < levels,
        0 * levels as int / width as int == 0,
{
    assert(0 <= i * levels <= j * levels < width * levels) by (nonlinear_arith)
        requires
            levels > 0,
            0 <= i <= j < width,
    ;
    vstd::arithmetic::div_mod::lemma_div_is_ordered(
        i * levels as int,
        j * levels as int,
        width as int,
    );
    vstd::arithmetic::div_mod::lemma_div_pos_is_pos(i * levels as int, width as int);
    assert(j * levels as int / (width as int) < levels) by (nonlinear_arith)
        requires
            0 <= j < width,
            levels > 0,
    ;
    assert(0 * levels as int / width as int == 0) by (nonlinear_arith)
        requires
            width > 0,
    ;
}

/// The width of a row of `n` cells that fit their columns.
pub open spec fn row_width(n: nat) -> nat
    decreases n,
{
    if n == 0 {
        0
    } else if n == 1 {
        column_width(0)
    } else {
        row_width((n - 1) as nat) + 1 + column_width(n - 1)
    }
}

/// Rows whose cells fit their columns are all of the same length, so that the
/// columns stand below each other.
pub proof fn law_rows_align(cells: Seq<Seq<char>>)
    requires
        cells.len() == 12,
        forall|i: int| 0 <= i < 12 ==> (#[trigger] cells[i]).len() <= column_width(i),
    ensures
        row_text(cells).len() == 99,
{
    reveal_strlit("\n");
    lemma_cells_fill_their_columns(cells);
    reveal_with_fuel(row_width, 12);
}

proof fn lemma_cells_fill_their_columns(cells: Seq<Seq<char>>)
    requires
        forall|i: int| 0 <= i < cells.len() ==> (#[trigger] cells[i]).len() <= column_width(i),
    ensures
        cells_text(cells).len() == row_width(cells.len()),
    decreases cells.len(),
{
    reveal_strlit(" ");
    if cells.len() > 0 {
        let front = cells.drop_last();
        assert forall|i: int| 0 <= i < front.len() implies (#[trigger] front[i]).len()
            <= column_width(i) by {
            assert(front[i] == cells[i]);
        }
        lemma_cells_fill_their_columns(front);
        let n = cells.len() - 1;
        assert(cells[n].len() <= column_width(n));
        assert(aligned_cell(cells[n], n).len() == column_width(n));
    }
}

/// `s` has no line end in it.
pub open spec fn one_line(s: Seq<char>) -> bool {
    crate::text::newlines(s) == 0
}

/// The figures of the hop are texts without line ends.
pub open spec fn figures_are_one_line(hop: MeasuredHop) -> bool {
    &&& one_line(hop.figures.loss@)
    &&& one_line(rtt_text(hop.figures.last))
    &&& one_line(rtt_text(hop.figures.average))
    &&& one_line(rtt_text(hop.figures.best))
    &&& one_line(rtt_text(hop.figures.worst))
    &&& one_line(rtt_text(hop.figures.stdev))
    &&& one_line(rtt_text(hop.figures.jitter))
}

proof fn lemma_one_line_literals()
    ensures
        one_line(" "@),
        one_line("-"@),
        one_line("*"@),
        one_line("%"@),
        crate::text::newlines("\n"@) == 1,
        "\n"@.last() == '\n',
        "\n"@.len() == 1,
{
    reveal_strlit(" ");
    reveal_strlit("-");
    reveal_strlit("*");
    reveal_strlit("%");
    reveal_strlit("\n");
    crate::text::lemma_no_newlines(" "@);
    crate::text::lemma_no_newlines("-"@);
    crate::text::lemma_no_newlines("*"@);
    crate::text::lemma_no_newlines("%"@);
    reveal_with_fuel(crate::text::newlines, 2);
    assert("\n"@.drop_last() =~= Seq::<char>::empty());
}

proof fn lemma_spaces_are_one_line(n: nat)
    ensures
        one_line(crate::text::spaces(n)),
{
    crate::text::lemma_no_newlines(crate::text::spaces(n));
}

proof fn lemma_aligned(s: Seq<char>, width: nat)
    ensures
        crate::text::newlines(crate::text::left_aligned(s, width)) == crate::text::newlines(s),
        crate::text::newlines(crate::text::right_aligned(s, width)) == crate::text::newlines(s),
{
    let n: nat = if s.len() < width {
        (width - s.len()) as nat
    } else {
        0
    };
    lemma_spaces_are_one_line(n);
    crate::text::lemma_newlines_add(s, crate::text::spaces(n));
    crate::text::lemma_newlines_add(crate::text::spaces(n), s);
}

proof fn lemma_decimal_is_one_line(n: nat)
    ensures
        one_line(crate::text::decimal(n)),
{
    crate::text::law_decimal_round_trip(n);
    let s = crate::text::decimal(n);
    assert forall|i: int| 0 <= i < s.len() implies s[i] != '\n' by {
        assert(crate::text::is_digit(s[i]));
    }
    crate::text::lemma_no_newlines(s);
}

/// Cells without line ends are one line beside each other.
proof fn lemma_cells_are_one_line(cells: Seq<Seq<char>>)
    requires
        forall|i: int| 0 <= i < cells.len() ==> one_line(#[trigger] cells[i]),
    ensures
        one_line(cells_text(cells)),
    decreases cells.len(),
{
    if cells.len() > 0 {
        let front = cells.drop_last();
        assert forall|i: int| 0 <= i < front.len() implies one_line(#[trigger] front[i]) by {
            assert(front[i] == cells[i]);
        }
        lemma_cells_are_one_line(front);
        let n = cells.len() - 1;
        assert(one_line(cells[n]));
        lemma_aligned(cells[n], column_width(n));
        lemma_one_line_literals();
        crate::text::lemma_newlines_add(cells_text(front), " "@);
        crate::text::lemma_newlines_add(cells_text(front) + " "@, aligned_cell(cells[n], n));
    }
}

/// A row of cells without line ends is one line.
proof fn lemma_row_is_one_line(cells: Seq<Seq<char>>)
    requires
        forall|i: int| 0 <= i < cells.len() ==> one_line(#[trigger] cells[i]),
    ensures
        crate::text::newlines(row_text(cells)) == 1,
{
    lemma_one_line_literals();
    lemma_cells_are_one_line(cells);
    crate::text::lemma_newlines_add(cells_text(cells), "\n"@);
}

proof fn lemma_header_is_one_line()
    ensures
        forall|i: int| 0 <= i < 12 ==> one_line(#[trigger] header_cells()[i]),
{
    reveal_strlit("Hop");
    reveal_strlit("Host");
    reveal_strlit("Loss%");
    reveal_strlit("Sent");
    reveal_strlit("Recv");
    reveal_strlit("Last");
    reveal_strlit("Avg");
    reveal_strlit("Best");
    reveal_strlit("Wrst");
    reveal_strlit("StDev");
    reveal_strlit("Jttr");
    reveal_strlit("Trend");
    assert forall|i: int| 0 <= i < 12 implies one_line(#[trigger] header_cells()[i]) by {
        crate::text::lemma_no_newlines(header_cells()[i]);
    }
}

proof fn lemma_hop_cells_are_one_line(hop: MeasuredHop)
    requires
        figures_are_one_line(hop),
    ensures
        forall|i: int| 0 <= i < 12 ==> one_line(#[trigger] hop_cells(hop)[i]),
{
    lemma_one_line_literals();
    lemma_decimal_is_one_line(hop.report.ttl as nat);
    lemma_decimal_is_one_line(hop.report@.sent);
    lemma_decimal_is_one_line(hop.report@.rtts.len());
    crate::text::lemma_newlines_add(hop.figures.loss@, "%"@);
    if let Some(ip) = hop.report.host {
        lemma_address_is_one_line(ip);
    }
    let trend = hop.figures.trend;
    let line = sparkline(trend.levels@, trend.flat, TREND_WIDTH as nat);
    if trend.levels@.len() > 0 {
        assert forall|i: int| 0 <= i < line.len() implies line[i] != '\n' by {}
        crate::text::lemma_no_newlines(line);
    }
}

proof fn lemma_address_is_one_line(ip: Ipv4Address)
    ensures
        one_line(ip.dotted()),
{
    let a = crate::text::decimal(ip.a as nat);
    let b = crate::text::decimal(ip.b as nat);
    let c = crate::text::decimal(ip.c as nat);
    let d = crate::text::decimal(ip.d as nat);
    lemma_decimal_is_one_line(ip.a as nat);
    lemma_decimal_is_one_line(ip.b as nat);
    lemma_decimal_is_one_line(ip.c as nat);
    lemma_decimal_is_one_line(ip.d as nat);
    let point = seq!['.'];
    crate::text::lemma_no_newlines(point);
    crate::text::lemma_newlines_add(a, point);
    crate::text::lemma_newlines_add(a + point, b);
    crate::text::lemma_newlines_add(a + point + b, point);
    crate::text::lemma_newlines_add(a + point + b + point, c);
    crate::text::lemma_newlines_add(a + point + b + point + c, point);
    crate::text::lemma_newlines_add(a + point + b + point + c + point, d);
}

proof fn lemma_table_lines(hops: Seq<MeasuredHop>)
    requires
        forall|i: int| 0 <= i < hops.len() ==> figures_are_one_line(#[trigger] hops[i]),
    ensures
        crate::text::newlines(table_text(hops)) == hops.len() + 1,
    decreases hops.len(),
{
    if hops.len() == 0 {
        lemma_header_is_one_line();
        lemma_row_is_one_line(header_cells());
    } else {
        let front = hops.drop_last();
        assert forall|i: int| 0 <= i < front.len() implies figures_are_one_line(
            #[trigger] front[i],
        ) by {
            assert(front[i] == hops[i]);
        }
        lemma_table_lines(front);
        assert(figures_are_one_line(hops[hops.len() - 1]));
        lemma_hop_cells_are_one_line(hops.last());
        lemma_row_is_one_line(hop_cells(hops.last()));
        crate::text::lemma_newlines_add(table_text(front), row_text(hop_cells(hops.last())));
    }
}

proof fn lemma_status_is_one_line(status: MonitorStatus)
    ensures
        one_line(status_text(status)),
{
    reveal_strlit("Status: ");
    reveal_strlit(" - ");
    reveal_strlit("calm");
    reveal_strlit("spiky");
    reveal_strlit("jittery");
    reveal_strlit("lossy");
    reveal_strlit("RTT is stable");
    reveal_strlit("latency spike detected");
    reveal_strlit("RTT is moving around");
    reveal_strlit("packet loss observed");
    crate::text::lemma_no_newlines(status_text(status));
}

/// The table and the status below it take two lines more than there are hops,
/// whatever was measured of them. (The figures themselves have no line ends.)
pub proof fn law_block_has_a_line_for_each_hop(hops: Seq<MeasuredHop>)
    requires
        forall|i: int| 0 <= i < hops.len() ==> figures_are_one_line(#[trigger] hops[i]),
    ensures
        crate::text::line_count(block_of(hops)) == hops.len() + 2,
{
    lemma_one_line_literals();
    lemma_table_lines(hops);
    let status = status_text(crate::status::status_of(hops));
    lemma_status_is_one_line(crate::status::status_of(hops));
    crate::text::lemma_newlines_add(table_text(hops), status);
    crate::text::lemma_newlines_add(table_text(hops) + status, "\n"@);
}

/// Blocks rise by one with the level, from the lowest to the highest.
pub proof fn law_blocks_rise_with_the_level(level: u8)
    ensures
        block(0) == '\u{2581}',
        block(7) == '\u{2588}',
        level < 7 ==> block((level + 1) as u8) as int == block(level) as int + 1,
        level >= 7 ==> block(level) == block(7),
{
}

/// The `i`-th of `width` blocks shows the level that stands as far behind the
/// first level as the block stands behind the first block: the `k`-th, where `k`
/// is to the number of levels as `i` is to the width, rounded down.
pub proof fn law_sparkline_keeps_proportion(levels: Seq<u8>, width: nat, i: int, k: int)
    requires
        levels.len() > 0,
        0 <= i < width,
        k * width <= i * levels.len() < (k + 1) * width,
    ensures
        0 <= k < levels.len(),
        sparkline(levels, false, width)[i] == block(levels[k]),
{
    let n = levels.len() as int;
    let w = width as int;
    let rest = i * n - k * w;
    assert(0 <= rest < w) by (nonlinear_arith)
        requires
            rest == i * n - k * w,
            k * w <= i * n < (k + 1) * w,
    ;
    vstd::arithmetic::div_mod::lemma_fundamental_div_mod_converse(i * n, w, k, rest);
    law_sparkline_goes_forward(levels.len(), width, i, i);
}

/// A trend that does not change is drawn at half height.
pub proof fn law_flat_trend_is_drawn_at_half_height(levels: Seq<u8>, width: nat, i: int)
    requires
        levels.len() > 0,
        0 <= i < width,
    ensures
        sparkline(levels, true, width)[i] == '\u{2584}',
{
}

/// A round-trip time is shown as it is, and a dash stands for none.
pub proof fn law_missing_times_are_dashes(text: String)
    ensures
        rtt_text(Some(text)) == text@,
        rtt_text(None) == "-"@,
{
}

/// The line on a probed hop tells its time to live, and then who replied and how
/// long it took. A star stands for a reply that did not come.
pub proof fn law_discovery_line_tells_who_replied(ttl: u8, ip: Ipv4Address, rtt: Seq<char>)
    ensures
        ({
            let n = crate::text::decimal(ttl as nat);
            let hop = "ttl="@ + n + crate::text::spaces(
                if n.len() < 2 {
                    1
                } else {
                    0
                },
            );
            let host = ip.dotted() + crate::text::spaces(
                if ip.dotted().len() < 14 {
                    (14 - ip.dotted().len()) as nat
                } else {
                    0
                },
            );
            &&& discovery_text(ttl, Some(ip), Some(rtt)) == hop + ("  "@ + host + "  "@ + rtt
                + "ms"@)
            &&& discovery_text(ttl, None, None) == hop + "  *"@
            &&& discovery_text(ttl, Some(ip), None) == hop + "  *"@
            &&& discovery_text(ttl, None, Some(rtt)) == hop + "  *"@
        }),
{
    let n = crate::text::decimal(ttl as nat);
    crate::text::law_decimal_round_trip(ttl as nat);
    assert("ttl="@ + crate::text::left_aligned(n, 2) =~= "ttl="@ + n + crate::text::spaces(
        if n.len() < 2 {
            1
        } else {
            0
        },
    ));
}

/// Below each name in the header stands the figure of that name.
pub proof fn law_figures_stand_below_their_names(hop: MeasuredHop)
    ensures
        header_cells().len() == 12,
        hop_cells(hop).len() == 12,
        header_cells()[0] == "Hop"@ && hop_cells(hop)[0] == crate::text::decimal(
            hop.report.ttl as nat,
        ),
        header_cells()[1] == "Host"@ && hop_cells(hop)[1] == (match hop.report.host {
            Some(ip) => ip.dotted(),
            None => "*"@,
        }),
        header_cells()[2] == "Loss%"@ && hop_cells(hop)[2] == hop.figures.loss@ + "%"@,
        header_cells()[3] == "Sent"@ && hop_cells(hop)[3] == crate::text::decimal(
            hop.report.statistics.sent as nat,
        ),
        header_cells()[4] == "Recv"@ && hop_cells(hop)[4] == crate::text::decimal(
            hop.report.statistics.rtts@.len(),
        ),
        header_cells()[5] == "Last"@ && hop_cells(hop)[5] == rtt_text(hop.figures.last),
        header_cells()[6] == "Avg"@ && hop_cells(hop)[6] == rtt_text(hop.figures.average),
        header_cells()[7] == "Best"@ && hop_cells(hop)[7] == rtt_text(hop.figures.best),
        header_cells()[8] == "Wrst"@ && hop_cells(hop)[8] == rtt_text(hop.figures.worst),
        header_cells()[9] == "StDev"@ && hop_cells(hop)[9] == rtt_text(hop.figures.stdev),
        header_cells()[10] == "Jttr"@ && hop_cells(hop)[10] == rtt_text(hop.figures.jitter),
        header_cells()[11] == "Trend"@ && hop_cells(hop)[11] == sparkline(
            hop.figures.trend.levels@,
            hop.figures.trend.flat,
            16,
        ),
{
}

/// A hop with other figures in one column differs in its row in that column
/// alone: each cell depends on its own figure and on nothing else.
pub proof fn law_cells_depend_on_their_own_figure(hop: MeasuredHop, other: MeasuredHop)
    ensures
        hop.report.ttl == other.report.ttl ==> hop_cells(hop)[0] == hop_cells(other)[0],
        hop.report.host == other.report.host ==> hop_cells(hop)[1] == hop_cells(other)[1],
        hop.figures.loss == other.figures.loss ==> hop_cells(hop)[2] == hop_cells(other)[2],
        hop.report.statistics.sent == other.report.statistics.sent ==> hop_cells(hop)[3]
            == hop_cells(other)[3],
        hop.report.statistics.rtts@.len() == other.report.statistics.rtts@.len() ==> hop_cells(
            hop,
        )[4] == hop_cells(other)[4],
        hop.figures.last == other.figures.last ==> hop_cells(hop)[5] == hop_cells(other)[5],
        hop.figures.average == other.figures.average ==> hop_cells(hop)[6] == hop_cells(other)[6],
        hop.figures.best == other.figures.best ==> hop_cells(hop)[7] == hop_cells(other)[7],
        hop.figures.worst == other.figures.worst ==> hop_cells(hop)[8] == hop_cells(other)[8],
        hop.figures.stdev == other.figures.stdev ==> hop_cells(hop)[9] == hop_cells(other)[9],
        hop.figures.jitter == other.figures.jitter ==> hop_cells(hop)[10] == hop_cells(other)[10],
        hop.figures.trend == other.figures.trend ==> hop_cells(hop)[11] == hop_cells(other)[11],
{
}

/// How wide the columns are, and on which side a cell stands in its column.
pub proof fn law_columns_have_their_widths(cell: Seq<char>)
    ensures
        aligned_cell(cell, 0) == crate::text::left_aligned(cell, 4),
        aligned_cell(cell, 1) == crate::text::left_aligned(cell, 15),
        aligned_cell(cell, 2) == crate::text::right_aligned(cell, 6),
        aligned_cell(cell, 3) == crate::text::right_aligned(cell, 5),
        aligned_cell(cell, 4) == crate::text::right_aligned(cell, 5),
        aligned_cell(cell, 11) == crate::text::left_aligned(cell, 16),
        forall|i: int|
            5 <= i <= 10 ==> #[trigger] aligned_cell(cell, i) == crate::text::right_aligned(
                cell,
                6,
            ),
{
}

/// A row holds its cells in their order, with a space between two of them, and
/// ends with a line end.
pub proof fn law_row_holds_its_cells(cells: Seq<Seq<char>>, cell: Seq<char>)
    ensures
        row_text(seq![cell]) == aligned_cell(cell, 0) + "\n"@,
        cells.len() > 0 ==> row_text(cells.push(cell)) == row_text(cells).drop_last() + " "@
            + aligned_cell(cell, cells.len() as int) + "\n"@,
{
    reveal_strlit("\n");
    assert(cells.push(cell).drop_last() =~= cells);
    assert(row_text(cells).drop_last() =~= cells_text(cells));
}

/// The table starts with the names of the columns, and each hop adds its row at
/// the end.
pub proof fn law_table_grows_by_a_row(hops: Seq<MeasuredHop>, hop: MeasuredHop)
    ensures
        table_text(Seq::empty()) == row_text(header_cells()),
        table_text(hops.push(hop)) == table_text(hops) + row_text(hop_cells(hop)),
{
    assert(hops.push(hop).drop_last() =~= hops);
}

/// The line that tells the status names it and says what it means.
pub proof fn law_status_line_tells_the_status()
    ensures
        status_text(MonitorStatus::Calm) == "Status: "@ + "calm"@ + " - "@ + "RTT is stable"@,
        status_text(MonitorStatus::Spiky) == "Status: "@ + "spiky"@ + " - "@
            + "latency spike detected"@,
        status_text(MonitorStatus::Jittery) == "Status: "@ + "jittery"@ + " - "@
            + "RTT is moving around"@,
        status_text(MonitorStatus::Lossy) == "Status: "@ + "lossy"@ + " - "@
            + "packet loss observed"@,
{
}

/// Below the table of the hops stands the status of the same hops, in a line of
/// its own.
pub proof fn law_status_stands_below_the_table(hops: Seq<MeasuredHop>)
    ensures
        block_of(hops).take(table_text(hops).len() as int) == table_text(hops),
        block_of(hops).skip(table_text(hops).len() as int) == status_text(
            crate::status::status_of(hops),
        ) + "\n"@,
{
    let table = table_text(hops);
    assert(block_of(hops).take(table.len() as int) =~= table);
    assert(block_of(hops).skip(table.len() as int) =~= status_text(crate::status::status_of(hops))
        + "\n"@);
}

} // verus!
