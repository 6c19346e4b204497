//! Tables on a terminal.

use vstd::prelude::*;

use crate::outside;
use crate::text;

verus! {

// ---------------------------------------------------------------------------
// Styles
// ---------------------------------------------------------------------------

/// A color of a text on the terminal.
#[derive(Clone, Copy, Debug, PartialEq, Eq, Structural)]
pub enum AnsiStyle {
    Red,
    Yellow,
    Green,
}

/// The code of a color.
pub open spec fn style_code(style: AnsiStyle) -> Seq<char> {
    match style {
        AnsiStyle::Red => "31"@,
        AnsiStyle::Yellow => "33"@,
        AnsiStyle::Green => "32"@,
    }
}

/// The text in a color, where colors are on.
pub open spec fn styled_text(value: Seq<char>, style: AnsiStyle, styled: bool) -> Seq<char> {
    if styled {
        "\u{1b}["@ + style_code(style) + "m"@ + value + "\u{1b}[0m"@
    } else {
        value
    }
}

/// Whether colors are on: the output is a terminal that is not dumb, and the user did not
/// turn them off.
pub open spec fn colors_are_on(is_terminal: bool, no_color: bool, term: Option<Seq<char>>) -> bool {
    is_terminal && !no_color && term != Some("dumb"@)
}

/// Whether colors are on: the output is a terminal that is not dumb, and the user did not
/// turn them off.
pub fn style_enabled(is_terminal: bool, no_color: bool, term: Option<&str>) -> (r: bool)
    ensures
        r == (is_terminal && !no_color && text::opt_str_chars(term) != Some("dumb"@)),
        r == colors_are_on(is_terminal, no_color, text::opt_str_chars(term)),
{
    is_terminal && !no_color && !text::is_text(term, "dumb")
}

/// The text in a color, where colors are on.
pub fn style_text(value: &str, style: AnsiStyle, styled: bool) -> (r: String)
    ensures
        r@ == styled_text(value@, style, styled),
{
    if !styled {
        return value.to_owned();
    }
    let code = match style {
        AnsiStyle::Red => "31",
        AnsiStyle::Yellow => "33",
        AnsiStyle::Green => "32",
    };
    let mut out = text::concat3("\u{1b}[", code, "m");
    out.append(value);
    out.append("\u{1b}[0m");
    out
}

/// Whether the character ends a control sequence.
pub open spec fn ends_sequence(c: char) -> bool {
    '@' <= c <= '~'
}

/// The number of characters up to the end of a control sequence.
pub open spec fn sequence_len(s: Seq<char>) -> int
    decreases s.len(),
{
    if s.len() == 0 {
        0
    } else if ends_sequence(s.first()) {
        1
    } else {
        1 + sequence_len(s.drop_first())
    }
}

/// The text without the control sequences in it.
pub open spec fn without_ansi(s: Seq<char>) -> Seq<char>
    decreases s.len(),
    via without_ansi_decreases
{
    if s.len() == 0 {
        s
    } else if s[0] == '\u{1b}' && s.len() > 1 && s[1] == '[' {
        without_ansi(s.skip(2 + sequence_len(s.skip(2))))
    } else {
        seq![s[0]] + without_ansi(s.skip(1))
    }
}

#[via_fn]
proof fn without_ansi_decreases(s: Seq<char>) {
    if s.len() > 1 {
        lemma_sequence_len(s.skip(2));
    }
}

proof fn lemma_sequence_len(s: Seq<char>)
    ensures
        0 <= sequence_len(s) <= s.len(),
    decreases s.len(),
{
    if s.len() > 0 && !ends_sequence(s.first()) {
        lemma_sequence_len(s.drop_first());
    }
}

/// The text without the control sequences in it.
pub fn strip_ansi_codes(value: &str) -> (r: String)
    ensures
        r@ == without_ansi(value@),
{
    let chars = text::chars_of(value);
    let mut result = String::new();
    let mut i: usize = 0;
    assert(chars@.skip(0) =~= chars@);
    assert(Seq::<char>::empty() + without_ansi(chars@) =~= without_ansi(chars@));
    while i < chars.len()
        invariant
            i <= chars@.len(),
            chars@ == value@,
            result@ + without_ansi(chars@.skip(i as int)) == without_ansi(value@),
        decreases chars@.len() - i,
    {
        let ghost rest = chars@.skip(i as int);
        if chars[i] == '\u{1b}' && i + 1 < chars.len() && chars[i + 1] == '[' {
            let mut j: usize = i + 2;
            assert(rest.skip(2) =~= chars@.skip(j as int));
            while j < chars.len() && !('@' <= chars[j] && chars[j] <= '~')
                invariant
                    i + 2 <= j <= chars@.len(),
                    j - (i + 2) + sequence_len(chars@.skip(j as int)) == sequence_len(
                        chars@.skip(i + 2),
                    ),
                decreases chars@.len() - j,
            {
                assert(chars@.skip(j as int).drop_first() =~= chars@.skip(j + 1));
                j += 1;
            }
            if j < chars.len() {
                assert(ends_sequence(chars@.skip(j as int).first()));
                j += 1;
            }
            assert(rest.skip(2 + sequence_len(rest.skip(2))) =~= chars@.skip(j as int));
            i = j;
        } else {
            let ghost before = result@;
            result.push(chars[i]);
            assert(rest.skip(1) =~= chars@.skip(i + 1));
            assert(before + (seq![rest[0]] + without_ansi(rest.skip(1))) =~= result@
                + without_ansi(chars@.skip(i + 1)));
            i += 1;
        }
    }
    assert(result@ + without_ansi(chars@.skip(i as int)) =~= result@);
    result
}

/// A text without escape characters has no control sequences.
pub proof fn law_plain_text_is_kept(s: Seq<char>)
    requires
        forall|i: int| 0 <= i < s.len() ==> #[trigger] s[i] != '\u{1b}',
    ensures
        without_ansi(s) == s,
    decreases s.len(),
{
    if s.len() > 0 {
        assert forall|i: int| 0 <= i < s.skip(1).len() implies #[trigger] s.skip(1)[i]
            != '\u{1b}' by {
            assert(s[i + 1] != '\u{1b}');
        }
        law_plain_text_is_kept(s.skip(1));
        assert(seq![s[0]] + s.skip(1) =~= s);
    }
}

proof fn lemma_plain_prefix(plain: Seq<char>, rest: Seq<char>)
    requires
        forall|i: int| 0 <= i < plain.len() ==> #[trigger] plain[i] != '\u{1b}',
    ensures
        without_ansi(plain + rest) == plain + without_ansi(rest),
    decreases plain.len(),
{
    if plain.len() == 0 {
        assert(plain + rest =~= rest);
        assert(plain + without_ansi(rest) =~= without_ansi(rest));
    } else {
        let tail = plain.skip(1);
        assert forall|i: int| 0 <= i < tail.len() implies #[trigger] tail[i] != '\u{1b}' by {
            assert(plain[i + 1] != '\u{1b}');
        }
        lemma_plain_prefix(tail, rest);
        assert((plain + rest).skip(1) =~= tail + rest);
        assert(seq![plain[0]] + (tail + without_ansi(rest)) =~= plain + without_ansi(rest));
    }
}

/// The color of a text does not count for its width: without control sequences a colored
/// text is the text.
pub proof fn law_color_is_not_seen(value: Seq<char>, style: AnsiStyle, styled: bool)
    requires
        forall|i: int| 0 <= i < value.len() ==> #[trigger] value[i] != '\u{1b}',
    ensures
        without_ansi(styled_text(value, style, styled)) == value,
{
    law_plain_text_is_kept(value);
    if styled {
        reveal_strlit("\u{1b}[");
        reveal_strlit("31");
        reveal_strlit("33");
        reveal_strlit("32");
        reveal_strlit("m");
        reveal_strlit("\u{1b}[0m");
        let code = style_code(style);
        let end = "\u{1b}[0m"@;
        let all = styled_text(value, style, styled);
        let after_open = code + "m"@ + value + end;
        assert(all =~= "\u{1b}["@ + after_open);
        assert(all[0] == '\u{1b}' && all[1] == '[');
        assert(all.skip(2) =~= after_open);
        assert(code.len() == 2 && !ends_sequence(code[0]) && !ends_sequence(code[1]));
        assert(after_open[0] == code[0] && after_open[1] == code[1] && after_open[2] == 'm');
        assert(sequence_len(after_open) == 3) by {
            assert(after_open.drop_first().first() == code[1]);
            assert(after_open.drop_first().drop_first().first() == 'm');
            assert(sequence_len(after_open.drop_first().drop_first()) == 1);
            assert(sequence_len(after_open.drop_first()) == 2);
        }
        assert(all.skip(5) =~= value + end);
        lemma_plain_prefix(value, end);
        assert(end[0] == '\u{1b}' && end[1] == '[' && end.len() == 4);
        let close = end.skip(2);
        assert(close[0] == '0' && close[1] == 'm' && close.len() == 2);
        assert(sequence_len(close) == 2) by {
            assert(close.drop_first().first() == 'm');
            assert(sequence_len(close.drop_first()) == 1);
        }
        assert(end.skip(4) =~= Seq::empty());
        assert(without_ansi(end) == without_ansi(end.skip(4)));
        assert(without_ansi(Seq::<char>::empty()) =~= Seq::<char>::empty());
        assert(value + Seq::<char>::empty() =~= value);
    }
}

/// The number of columns that a text takes, without its control sequences.
pub open spec fn shown_width(value: Seq<char>) -> usize {
    outside::text_width(without_ansi(value))
}

/// The number of columns that a text takes on a terminal.
pub fn visible_width(value: &str) -> (r: usize)
    ensures
        r == shown_width(value@),
{
    let stripped = strip_ansi_codes(value);
    outside::width(stripped.as_str())
}

// ---------------------------------------------------------------------------
// Tables
// ---------------------------------------------------------------------------

/// The text with blanks on the side that the alignment leaves, up to a width.
pub open spec fn aligned(value: Seq<char>, width: nat, align: Seq<char>) -> Seq<char> {
    let padding = if width > shown_width(value) {
        (width - shown_width(value)) as nat
    } else {
        0
    };
    if align == "left"@ {
        value + text::repeated(' ', padding)
    } else if align == "right"@ {
        text::repeated(' ', padding) + value
    } else if align == "center"@ {
        text::repeated(' ', padding / 2) + value + text::repeated(
            ' ',
            (padding - padding / 2) as nat,
        )
    } else {
        value
    }
}

/// The text with blanks on the side that the alignment leaves, up to a width.
pub fn align_cell(value: &str, width: u128, align: &str) -> (r: String)
    ensures
        r@ == aligned(value@, width as nat, align@),
{
    let taken: u128 = visible_width(value) as u128;
    let padding: u128 = if width > taken {
        width - taken
    } else {
        0
    };
    if text::same_text(align, "left") {
        let blanks = text::repeat(' ', padding);
        text::concat2(value, blanks.as_str())
    } else if text::same_text(align, "right") {
        let blanks = text::repeat(' ', padding);
        text::concat2(blanks.as_str(), value)
    } else if text::same_text(align, "center") {
        let left: u128 = padding / 2;
        let right: u128 = padding - left;
        let before = text::repeat(' ', left);
        let after = text::repeat(' ', right);
        text::concat3(before.as_str(), value, after.as_str())
    } else {
        value.to_owned()
    }
}

/// The cells of each row.
pub open spec fn row_views(rows: Seq<Vec<String>>) -> Seq<Seq<Seq<char>>> {
    Seq::new(rows.len(), |i: int| text::views(rows[i]@))
}

/// The width of a column: that of its widest cell.
pub open spec fn column_width(header: Seq<char>, rows: Seq<Seq<Seq<char>>>, column: int) -> nat
    decreases rows.len(),
{
    if rows.len() == 0 {
        shown_width(header) as nat
    } else {
        let rest = column_width(header, rows.drop_last(), column);
        let row = rows.last();
        if column < row.len() && shown_width(row[column]) > rest {
            shown_width(row[column]) as nat
        } else {
            rest
        }
    }
}

/// The width of each column.
pub open spec fn column_widths(headers: Seq<Seq<char>>, rows: Seq<Seq<Seq<char>>>) -> Seq<nat> {
    Seq::new(headers.len(), |i: int| column_width(headers[i], rows, i))
}

/// A horizontal line of the table.
pub open spec fn border_line(widths: Seq<nat>, left: char, middle: char, right: char) -> Seq<char> {
    seq![left] + text::joined(
        Seq::new(widths.len(), |i: int| text::repeated('─', widths[i] + 2)),
        seq![middle],
    ) + seq![right]
}

/// The cells of a row, each in the width of its column.
pub open spec fn aligned_cells(
    cells: Seq<Seq<char>>,
    widths: Seq<nat>,
    aligns: Seq<Seq<char>>,
) -> Seq<Seq<char>> {
    Seq::new(cells.len(), |i: int| aligned(cells[i], widths[i], aligns[i]))
}

/// A row of the table.
pub open spec fn row_line(
    cells: Seq<Seq<char>>,
    widths: Seq<nat>,
    aligns: Seq<Seq<char>>,
) -> Seq<char> {
    "│ "@ + text::joined(aligned_cells(cells, widths, aligns), " │ "@) + " │"@
}

/// The lines of the first `n` rows, with a line between two rows.
pub open spec fn body_lines(
    rows: Seq<Seq<Seq<char>>>,
    widths: Seq<nat>,
    aligns: Seq<Seq<char>>,
    n: nat,
) -> Seq<Seq<char>>
    decreases n,
{
    if n == 0 {
        Seq::empty()
    } else {
        let before = body_lines(rows, widths, aligns, (n - 1) as nat).push(
            row_line(rows[n - 1], widths, aligns),
        );
        if n == rows.len() {
            before
        } else {
            before.push(border_line(widths, '├', '┼', '┤'))
        }
    }
}

/// The sum of the widths.
pub open spec fn total_of(widths: Seq<nat>) -> nat
    decreases widths.len(),
{
    if widths.len() == 0 {
        0
    } else {
        total_of(widths.drop_last()) + widths.last()
    }
}

/// The width of a cell that spans all columns.
pub open spec fn spanned_width(widths: Seq<nat>) -> nat {
    (total_of(widths) + (widths.len() - 1) * 3) as nat
}

/// The lines of the table.
pub open spec fn table_lines(
    headers: Seq<Seq<char>>,
    rows: Seq<Seq<Seq<char>>>,
    aligns: Seq<Seq<char>>,
    summary: Option<Seq<char>>,
) -> Seq<Seq<char>> {
    let widths = column_widths(headers, rows);
    let top = seq![
        border_line(widths, '┌', '┬', '┐'),
        row_line(headers, widths, aligns),
        border_line(widths, '├', '┼', '┤'),
    ];
    let body = body_lines(rows, widths, aligns, rows.len());
    let foot = match summary {
        Some(text) => seq![
            "├"@ + text::repeated('─', spanned_width(widths) + 2) + "┤"@,
            "│ "@ + aligned(text, spanned_width(widths), "center"@) + " │"@,
        ],
        None => Seq::empty(),
    };
    (top + body + foot).push(border_line(widths, '└', '┴', '┘'))
}

/// The widths as mathematical numbers.
pub open spec fn nats(widths: Seq<usize>) -> Seq<nat> {
    Seq::new(widths.len(), |i: int| widths[i] as nat)
}

fn measure_column(header: &str, rows: &[Vec<String>], column: usize) -> (r: usize)
    ensures
        r == column_width(header@, row_views(rows@), column as int),
{
    let ghost all = row_views(rows@);
    let mut widest = visible_width(header);
    let mut i: usize = 0;
    while i < rows.len()
        invariant
            i <= rows@.len(),
            all == row_views(rows@),
            widest == column_width(header@, all.take(i as int), column as int),
        decreases rows@.len() - i,
    {
        assert(all.take(i + 1).drop_last() =~= all.take(i as int));
        assert(all.take(i + 1).last() == text::views(rows@[i as int]@));
        let row = &rows[i];
        if column < row.len() {
            let taken = visible_width(row[column].as_str());
            if taken > widest {
                widest = taken;
            }
        }
        i += 1;
    }
    assert(all.take(i as int) =~= all);
    widest
}

fn measure_columns(headers: &[&str], rows: &[Vec<String>]) -> (r: Vec<usize>)
    ensures
        nats(r@) == column_widths(text::str_views(headers@), row_views(rows@)),
{
    let ghost goal = column_widths(text::str_views(headers@), row_views(rows@));
    let mut widths: Vec<usize> = Vec::new();
    let mut i: usize = 0;
    while i < headers.len()
        invariant
            i <= headers@.len(),
            goal == column_widths(text::str_views(headers@), row_views(rows@)),
            nats(widths@) == goal.take(i as int),
        decreases headers@.len() - i,
    {
        let ghost before = nats(widths@);
        widths.push(measure_column(headers[i], rows, i));
        assert(nats(widths@) =~= before.push(goal[i as int]));
        assert(goal.take(i + 1) =~= goal.take(i as int).push(goal[i as int]));
        i += 1;
    }
    assert(goal.take(i as int) =~= goal);
    widths
}

fn draw_border(widths: &Vec<usize>, left: char, middle: char, right: char) -> (r: String)
    ensures
        r@ == border_line(nats(widths@), left, middle, right),
{
    let ghost parts = Seq::new(
        nats(widths@).len(),
        |i: int| text::repeated('─', nats(widths@)[i] + 2),
    );
    let mut pieces: Vec<String> = Vec::new();
    let mut i: usize = 0;
    while i < widths.len()
        invariant
            i <= widths@.len(),
            parts == Seq::new(
                nats(widths@).len(),
                |i: int| text::repeated('─', nats(widths@)[i] + 2),
            ),
            text::views(pieces@) == parts.take(i as int),
        decreases widths@.len() - i,
    {
        let ghost before = text::views(pieces@);
        pieces.push(text::repeat('─', widths[i] as u128 + 2));
        assert(text::views(pieces@) =~= before.push(parts[i as int]));
        assert(parts.take(i + 1) =~= parts.take(i as int).push(parts[i as int]));
        i += 1;
    }
    assert(parts.take(i as int) =~= parts);
    let mut between = String::new();
    between.push(middle);
    let middle_part = text::join(&pieces, between.as_str());
    let mut out = String::new();
    out.push(left);
    out.append(middle_part.as_str());
    out.push(right);
    proof {
        assert(between@ =~= seq![middle]);
        assert(out@ =~= border_line(nats(widths@), left, middle, right));
    }
    out
}

fn frame_cells(cells: &Vec<String>) -> (r: String)
    ensures
        r@ == "│ "@ + text::joined(text::views(cells@), " │ "@) + " │"@,
{
    let inner = text::join(cells, " │ ");
    text::concat3("│ ", inner.as_str(), " │")
}

fn draw_row(values: &Vec<String>, widths: &Vec<usize>, aligns: &[&str]) -> (r: String)
    requires
        values@.len() <= widths@.len(),
        values@.len() <= aligns@.len(),
    ensures
        r@ == row_line(text::views(values@), nats(widths@), text::str_views(aligns@)),
{
    let ghost goal = aligned_cells(
        text::views(values@),
        nats(widths@),
        text::str_views(aligns@),
    );
    let mut cells: Vec<String> = Vec::new();
    let mut i: usize = 0;
    while i < values.len()
        invariant
            i <= values@.len() <= widths@.len(),
            values@.len() <= aligns@.len(),
            goal == aligned_cells(
                text::views(values@),
                nats(widths@),
                text::str_views(aligns@),
            ),
            text::views(cells@) == goal.take(i as int),
        decreases values@.len() - i,
    {
        let ghost before = text::views(cells@);
        cells.push(align_cell(values[i].as_str(), widths[i] as u128, aligns[i]));
        assert(text::views(cells@) =~= before.push(goal[i as int]));
        assert(goal.take(i + 1) =~= goal.take(i as int).push(goal[i as int]));
        i += 1;
    }
    assert(goal.take(i as int) =~= goal);
    frame_cells(&cells)
}

fn own_headers(headers: &[&str]) -> (r: Vec<String>)
    ensures
        text::views(r@) == text::str_views(headers@),
{
    let ghost goal = text::str_views(headers@);
    let mut out: Vec<String> = Vec::new();
    let mut i: usize = 0;
    while i < headers.len()
        invariant
            i <= headers@.len(),
            goal == text::str_views(headers@),
            text::views(out@) == goal.take(i as int),
        decreases headers@.len() - i,
    {
        let ghost before = text::views(out@);
        out.push(headers[i].to_owned());
        assert(text::views(out@) =~= before.push(goal[i as int]));
        assert(goal.take(i + 1) =~= goal.take(i as int).push(goal[i as int]));
        i += 1;
    }
    assert(goal.take(i as int) =~= goal);
    out
}

fn span_columns(widths: &Vec<usize>) -> (r: u128)
    requires
        0 < widths@.len(),
        widths@.len() * 4 <= usize::MAX,
    ensures
        r == spanned_width(nats(widths@)),
        r + 2 <= u128::MAX,
{
    let ghost all = nats(widths@);
    let mut total: u128 = 0;
    let mut i: usize = 0;
    while i < widths.len()
        invariant
            i <= widths@.len(),
            widths@.len() * 4 <= usize::MAX,
            all == nats(widths@),
            total == total_of(all.take(i as int)),
            total <= i * (usize::MAX as int),
        decreases widths@.len() - i,
    {
        assert(all.take(i + 1).drop_last() =~= all.take(i as int));
        assert((i + 1) * (usize::MAX as int) == i * (usize::MAX as int) + usize::MAX)
            by (nonlinear_arith);
        assert(i * (usize::MAX as int) <= (usize::MAX as int) * (usize::MAX as int))
            by (nonlinear_arith)
            requires
                0 <= i <= usize::MAX,
        ;
        assert((usize::MAX as int) * (usize::MAX as int) + usize::MAX <= u128::MAX)
            by (nonlinear_arith)
            requires
                usize::MAX <= 0xffff_ffff_ffff_ffff,
        ;
        total = total + widths[i] as u128;
        i += 1;
    }
    assert(all.take(i as int) =~= all);
    assert(4 * (i * (usize::MAX as int)) <= (usize::MAX as int) * (usize::MAX as int))
        by (nonlinear_arith)
        requires
            0 <= i * 4 <= usize::MAX,
    ;
    assert((usize::MAX as int) * (usize::MAX as int) <= u128::MAX) by (nonlinear_arith)
        requires
            usize::MAX <= 0xffff_ffff_ffff_ffff,
    ;
    let gaps: u128 = (widths.len() as u128 - 1) * 3;
    total + gaps
}

/// The table with the headers, the rows and, where there is one, a summary across all
/// columns.
pub fn render_table(
    headers: &[&str],
    rows: &[Vec<String>],
    aligns: &[&str],
    summary: Option<String>,
) -> (r: String)
    requires
        headers@.len() <= aligns@.len(),
        headers@.len() * 4 <= usize::MAX,
        forall|i: int| 0 <= i < rows@.len() ==> (#[trigger] rows@[i])@.len() <= headers@.len(),
        summary is Some ==> headers@.len() > 0,
    ensures
        r@ == text::joined(
            table_lines(
                text::str_views(headers@),
                row_views(rows@),
                text::str_views(aligns@),
                text::opt_chars(summary),
            ),
            "\n"@,
        ),
{
    let widths = measure_columns(headers, rows);
    let ghost w = nats(widths@);
    let ghost all = row_views(rows@);
    let ghost a = text::str_views(aligns@);
    let ghost top = seq![
        border_line(w, '┌', '┬', '┐'),
        row_line(text::str_views(headers@), w, a),
        border_line(w, '├', '┼', '┤'),
    ];
    let titles = own_headers(headers);
    assert(w.len() == widths@.len());
    assert(text::views(titles@).len() == titles@.len());
    assert(w.len() == headers@.len());
    let mut lines: Vec<String> = Vec::new();
    lines.push(draw_border(&widths, '┌', '┬', '┐'));
    lines.push(draw_row(&titles, &widths, aligns));
    lines.push(draw_border(&widths, '├', '┼', '┤'));
    assert(text::views(lines@) =~= top + body_lines(all, w, a, 0));
    let mut i: usize = 0;
    while i < rows.len()
        invariant
            i <= rows@.len(),
            w == nats(widths@),
            widths@.len() == headers@.len() <= aligns@.len(),
            all == row_views(rows@),
            a == text::str_views(aligns@),
            forall|k: int|
                0 <= k < rows@.len() ==> (#[trigger] rows@[k])@.len() <= headers@.len(),
            text::views(lines@) == top + body_lines(all, w, a, i as nat),
        decreases rows@.len() - i,
    {
        let ghost before = text::views(lines@);
        let ghost body = body_lines(all, w, a, i as nat);
        lines.push(draw_row(&rows[i], &widths, aligns));
        assert(text::views(lines@) =~= before.push(row_line(all[i as int], w, a)));
        if i + 1 != rows.len() {
            lines.push(draw_border(&widths, '├', '┼', '┤'));
            assert(text::views(lines@) =~= before.push(row_line(all[i as int], w, a)).push(
                border_line(w, '├', '┼', '┤'),
            ));
        }
        assert(text::views(lines@) =~= top + body_lines(all, w, a, (i + 1) as nat));
        i += 1;
    }
    let ghost so_far = text::views(lines@);
    let ghost summary_text = text::opt_chars(summary);
    if let Some(summary) = summary {
        let total = span_columns(&widths);
        let rule = text::repeat('─', total + 2);
        lines.push(text::concat3("├", rule.as_str(), "┤"));
        let cell = align_cell(summary.as_str(), total, "center");
        lines.push(text::concat3("│ ", cell.as_str(), " │"));
        assert(text::views(lines@) =~= so_far + seq![
            "├"@ + text::repeated('─', spanned_width(w) + 2) + "┤"@,
            "│ "@ + aligned(summary@, spanned_width(w), "center"@) + " │"@,
        ]);
    } else {
        assert(text::views(lines@) =~= so_far + Seq::<Seq<char>>::empty());
    }
    let ghost with_foot = text::views(lines@);
    lines.push(draw_border(&widths, '└', '┴', '┘'));
    assert(text::views(lines@) =~= with_foot.push(border_line(w, '└', '┴', '┘')));
    assert(text::views(lines@) =~= table_lines(
        text::str_views(headers@),
        all,
        a,
        summary_text,
    ));
    text::join(&lines, "\n")
}

/// Every cell of a table fits in its column.
pub proof fn law_cells_fit_their_column(
    headers: Seq<Seq<char>>,
    rows: Seq<Seq<Seq<char>>>,
    row: int,
    column: int,
)
    requires
        0 <= row < rows.len(),
        0 <= column < rows[row].len(),
        column < headers.len(),
    ensures
        shown_width(rows[row][column]) <= column_widths(headers, rows)[column],
        shown_width(headers[column]) <= column_widths(headers, rows)[column],
{
    lemma_cell_fits(headers[column], rows, row, column);
}

proof fn lemma_cell_fits(header: Seq<char>, rows: Seq<Seq<Seq<char>>>, row: int, column: int)
    requires
        0 <= row < rows.len(),
        0 <= column < rows[row].len(),
    ensures
        shown_width(rows[row][column]) <= column_width(header, rows, column),
        shown_width(header) <= column_width(header, rows, column),
    decreases rows.len(),
{
    lemma_header_fits(header, rows, column);
    if row < rows.len() - 1 {
        lemma_cell_fits(header, rows.drop_last(), row, column);
    }
}

proof fn lemma_header_fits(header: Seq<char>, rows: Seq<Seq<Seq<char>>>, column: int)
    ensures
        shown_width(header) <= column_width(header, rows, column),
    decreases rows.len(),
{
    if rows.len() > 0 {
        lemma_header_fits(header, rows.drop_last(), column);
    }
}

// ---------------------------------------------------------------------------
// Laws of the layout
// ---------------------------------------------------------------------------

/// A cell is filled up with blanks to the width: behind a text at the left, before one at the
/// right, and evenly around one in the middle, where an odd one stands behind. Nothing else
/// is put in, and a text that is too wide stays as it is.
#[verifier::spinoff_prover]
#[verifier::rlimit(40)]
pub proof fn law_cells_are_filled_up(value: Seq<char>, width: nat)
    ensures
        ({
            let missing = if width > shown_width(value) {
                (width - shown_width(value)) as nat
            } else {
                0
            };
            let blanks = text::repeated(' ', missing);
            let half = text::repeated(' ', missing / 2);
            &&& aligned(value, width, "left"@) == value + blanks
            &&& aligned(value, width, "right"@) == blanks + value
            &&& (half + value).is_prefix_of(aligned(value, width, "center"@))
            &&& aligned(value, width, "center"@).len() == value.len() + missing
            &&& aligned(value, width, "center"@).skip((half.len() + value.len()) as int)
                == text::repeated(' ', ((missing + 1) / 2) as nat)
        }),
{
    reveal_strlit("left");
    reveal_strlit("right");
    reveal_strlit("center");
    assert("left"@.len() != "right"@.len());
    assert("left"@.len() != "center"@.len());
    assert("right"@.len() != "center"@.len());
    let missing = if width > shown_width(value) {
        (width - shown_width(value)) as nat
    } else {
        0
    };
    let half = text::repeated(' ', missing / 2);
    let all = aligned(value, width, "center"@);
    assert(half + value =~= all.take((half.len() + value.len()) as int));
    assert(all.skip((half.len() + value.len()) as int) =~= text::repeated(
        ' ',
        ((missing + 1) / 2) as nat,
    ));
}

/// A column is as wide as its header or as one of its cells, and so no wider than needed.
pub proof fn law_columns_are_no_wider_than_needed(
    header: Seq<char>,
    rows: Seq<Seq<Seq<char>>>,
    column: int,
)
    ensures
        column_width(header, rows, column) == shown_width(header) || exists|i: int|
            0 <= i < rows.len() && column < (#[trigger] rows[i]).len() && column_width(
                header,
                rows,
                column,
            ) == shown_width(rows[i][column]),
    decreases rows.len(),
{
    if rows.len() > 0 {
        let rest = rows.drop_last();
        law_columns_are_no_wider_than_needed(header, rest, column);
        let row = rows[rows.len() - 1];
        if column < row.len() && shown_width(row[column]) > column_width(header, rest, column) {
            assert(column_width(header, rows, column) == shown_width(row[column]));
        } else if column_width(header, rest, column) != shown_width(header) {
            let i = choose|i: int|
                0 <= i < rest.len() && column < (#[trigger] rest[i]).len() && column_width(
                    header,
                    rest,
                    column,
                ) == shown_width(rest[i][column]);
            assert(rest[i] == rows[i]);
        }
    }
}

proof fn lemma_body_lines(
    rows: Seq<Seq<Seq<char>>>,
    widths: Seq<nat>,
    aligns: Seq<Seq<char>>,
    n: nat,
    i: int,
)
    requires
        n <= rows.len(),
        0 <= i < n,
    ensures
        body_lines(rows, widths, aligns, n).len() == (if n == rows.len() {
            2 * n - 1
        } else {
            2 * n as int
        }),
        body_lines(rows, widths, aligns, n)[2 * i] == row_line(rows[i], widths, aligns),
        i + 1 < rows.len() ==> body_lines(rows, widths, aligns, n)[2 * i + 1] == border_line(
            widths,
            '├',
            '┼',
            '┤',
        ),
    decreases n,
{
    let m = (n - 1) as nat;
    assert(body_lines(rows, widths, aligns, 0).len() == 0);
    if m > 0 {
        lemma_body_lines(
            rows,
            widths,
            aligns,
            m,
            if i < m {
                i
            } else {
                0
            },
        );
    }
}

/// The table has its headers below the upper border, and each row of it in a line of its own,
/// in order, with a border between two of them.
pub proof fn law_rows_stand_below_the_headers(
    headers: Seq<Seq<char>>,
    rows: Seq<Seq<Seq<char>>>,
    aligns: Seq<Seq<char>>,
    summary: Option<Seq<char>>,
    i: int,
)
    requires
        0 <= i < rows.len(),
    ensures
        ({
            let lines = table_lines(headers, rows, aligns, summary);
            let widths = column_widths(headers, rows);
            &&& lines.len() == 3 + (2 * rows.len() - 1) + (if summary is Some {
                2int
            } else {
                0
            }) + 1
            &&& lines[1] == row_line(headers, widths, aligns)
            &&& lines[3 + 2 * i] == row_line(rows[i], widths, aligns)
            &&& i + 1 < rows.len() ==> lines[3 + 2 * i + 1] == border_line(widths, '├', '┼', '┤')
            &&& lines[0] == border_line(widths, '┌', '┬', '┐')
            &&& lines[2] == border_line(widths, '├', '┼', '┤')
            &&& lines.last() == border_line(widths, '└', '┴', '┘')
            &&& summary matches Some(text) ==> lines[lines.len() - 2] == "│ "@ + aligned(
                text,
                spanned_width(widths),
                "center"@,
            ) + " │"@
        }),
{
    let widths = column_widths(headers, rows);
    lemma_body_lines(rows, widths, aligns, rows.len(), i);
}

/// Of two columns, the first cell of a row stands before the second, each in the width of its
/// own column.
pub proof fn law_cells_stand_in_order(
    first: Seq<char>,
    second: Seq<char>,
    widths: Seq<nat>,
    aligns: Seq<Seq<char>>,
)
    requires
        widths.len() == 2,
        aligns.len() == 2,
    ensures
        row_line(seq![first, second], widths, aligns) == "│ "@ + aligned(
            first,
            widths[0],
            aligns[0],
        ) + " │ "@ + aligned(second, widths[1], aligns[1]) + " │"@,
{
    let cells = seq![first, second];
    let shown = aligned_cells(cells, widths, aligns);
    let one = shown.drop_last();
    assert(one.len() == 1);
    assert(text::joined(one, " │ "@) == one[0]);
    assert(row_line(cells, widths, aligns) =~= "│ "@ + aligned(first, widths[0], aligns[0])
        + " │ "@ + aligned(second, widths[1], aligns[1]) + " │"@);
}

/// One reason is enough to turn colors off, and without one they are on.
pub proof fn law_colors_are_for_terminals(
    is_terminal: bool,
    no_color: bool,
    term: Option<Seq<char>>,
    name: Seq<char>,
)
    requires
        name != "dumb"@,
    ensures
        !colors_are_on(false, no_color, term),
        !colors_are_on(is_terminal, true, term),
        !colors_are_on(is_terminal, no_color, Some("dumb"@)),
        colors_are_on(true, false, None),
        colors_are_on(true, false, Some(name)),
{
}

/// A cell that spans all columns is as wide as the table: its line is as long as the borders.
pub proof fn law_spanning_cell_is_as_wide_as_the_table(
    widths: Seq<nat>,
    left: char,
    middle: char,
    right: char,
)
    requires
        widths.len() > 0,
    ensures
        border_line(widths, left, middle, right).len() == spanned_width(widths) + 4,
        ("├"@ + text::repeated('─', spanned_width(widths) + 2) + "┤"@).len() == border_line(
            widths,
            left,
            middle,
            right,
        ).len(),
{
    reveal_strlit("├");
    reveal_strlit("┤");
    lemma_border_len(widths, seq![middle]);
}

proof fn lemma_border_len(widths: Seq<nat>, sep: Seq<char>)
    requires
        widths.len() > 0,
        sep.len() == 1,
    ensures
        text::joined(
            Seq::new(widths.len(), |i: int| text::repeated('─', widths[i] + 2)),
            sep,
        ).len() == total_of(widths) + 3 * widths.len() - 1,
    decreases widths.len(),
{
    let parts = Seq::new(widths.len(), |i: int| text::repeated('─', widths[i] + 2));
    let rest = widths.drop_last();
    if widths.len() == 1 {
        assert(total_of(rest) == 0);
    } else {
        lemma_border_len(rest, sep);
        assert(parts.drop_last() =~= Seq::new(
            rest.len(),
            |i: int| text::repeated('─', rest[i] + 2),
        ));
    }
}

/// The line above the summary is as long as the borders.
pub proof fn law_summary_is_set_off(
    headers: Seq<Seq<char>>,
    rows: Seq<Seq<Seq<char>>>,
    aligns: Seq<Seq<char>>,
    summary: Seq<char>,
)
    requires
        headers.len() > 0,
    ensures
        ({
            let lines = table_lines(headers, rows, aligns, Some(summary));
            &&& lines.len() >= 6
            &&& lines[lines.len() - 3].len() == lines[0].len()
            &&& lines.last().len() == lines[0].len()
        }),
{
    let widths = column_widths(headers, rows);
    law_spanning_cell_is_as_wide_as_the_table(widths, '┌', '┬', '┐');
    law_spanning_cell_is_as_wide_as_the_table(widths, '└', '┴', '┘');
}

} // verus!
