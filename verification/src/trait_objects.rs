//! Drawable screen components: a bordered button and a centred label,
//! each rendered to a multi-line string.

use vstd::prelude::*;

use crate::lifetimes::is_space;
use crate::text::split_lines;

verus! {

/// `n` copies of one character.
pub open spec fn char_repeat(c: char, n: nat) -> Seq<char>
    decreases n,
{
    if n == 0 {
        Seq::empty()
    } else {
        char_repeat(c, (n - 1) as nat).push(c)
    }
}

/// A horizontal border: `+` at both ends, `-` between.
pub open spec fn border_line(aw: nat) -> Seq<char> {
    Seq::new(aw, |i: int| if i == 0 || i == aw - 1 { '+' } else { '-' })
}

/// An empty interior row: `|`, spaces, `|`.
pub open spec fn blank_line(aw: nat) -> Seq<char> {
    seq!['|'] + char_repeat(' ', (aw - 2) as nat) + seq!['|']
}

/// `n` empty interior rows, run together on one text line.
pub open spec fn blank_rows(aw: nat, n: nat) -> Seq<char>
    decreases n,
{
    if n == 0 {
        Seq::empty()
    } else {
        blank_rows(aw, (n - 1) as nat) + blank_line(aw)
    }
}

/// One bordered text row: the line centred between `|`s, the spare space
/// split with the extra space on the right, then a line break.
pub open spec fn bordered_row(l: Seq<char>, aw: int) -> Seq<char> {
    let rem = aw - 2 - l.len();
    seq!['|'] + char_repeat(' ', (rem / 2) as nat) + l + char_repeat(
        ' ',
        ((rem + 1) / 2) as nat,
    ) + seq!['|'] + seq!['\n']
}

/// All the text rows of a button, in order.
pub open spec fn bordered_rows(ls: Seq<Seq<char>>, aw: int) -> Seq<char>
    decreases ls.len(),
{
    if ls.len() == 0 {
        Seq::empty()
    } else {
        bordered_rows(ls.drop_last(), aw) + bordered_row(ls.last(), aw)
    }
}

/// One centred label row, without borders.
pub open spec fn centred_row(l: Seq<char>, aw: int) -> Seq<char> {
    let rem = aw - l.len();
    char_repeat(' ', (rem / 2) as nat) + l + char_repeat(' ', ((rem + 1) / 2) as nat)
}

/// A label's rows, joined by line breaks.
pub open spec fn centred_rows(ls: Seq<Seq<char>>, aw: int) -> Seq<char>
    decreases ls.len(),
{
    if ls.len() == 0 {
        Seq::empty()
    } else if ls.len() == 1 {
        centred_row(ls[0], aw)
    } else {
        centred_rows(ls.drop_last(), aw) + seq!['\n'] + centred_row(ls.last(), aw)
    }
}

/// The length of the longest line, in characters.
pub open spec fn max_line_len(ls: Seq<Seq<char>>) -> int
    decreases ls.len(),
{
    if ls.len() == 0 {
        0
    } else {
        let m = max_line_len(ls.drop_last());
        if ls.last().len() > m {
            ls.last().len() as int
        } else {
            m
        }
    }
}

/// How many white-space characters the text holds.
pub open spec fn space_count(s: Seq<char>) -> int
    decreases s.len(),
{
    if s.len() == 0 {
        0
    } else {
        space_count(s.drop_last()) + if is_space(s.last()) {
            1int
        } else {
            0int
        }
    }
}

/// No line is longer than the longest one.
proof fn lemma_max_line_len(ls: Seq<Seq<char>>, i: int)
    requires
        0 <= i < ls.len(),
    ensures
        ls[i].len() <= max_line_len(ls),
        max_line_len(ls) >= 0,
    decreases ls.len(),
{
    lemma_max_line_len_nonneg(ls);
    if i < ls.len() - 1 {
        lemma_max_line_len(ls.drop_last(), i);
    }
}

proof fn lemma_max_line_len_nonneg(ls: Seq<Seq<char>>)
    ensures
        max_line_len(ls) >= 0,
    decreases ls.len(),
{
    if ls.len() > 0 {
        lemma_max_line_len_nonneg(ls.drop_last());
    }
}

/// The line views of a vector of strings.
pub open spec fn views(ls: Seq<String>) -> Seq<Seq<char>> {
    ls.map_values(|x: String| x@)
}

/// The full rendering of a button: a border, the interior rows with the
/// label's lines centred between `|`s and any empty rows split between
/// top and bottom, and the closing border.
pub open spec fn button_render(width: u32, height: u32, label: Seq<char>) -> Seq<char> {
    let lines = split_lines(label);
    let mlw = max_line_len(lines);
    let aw = if width >= mlw + 2 { width as int } else { mlw + 2 };
    let lc = space_count(label);
    let ah = if height >= lc + 2 { height as int } else { lc + 2 };
    let elc = ah - 2 - lc;
    border_line(aw as nat) + seq!['\n'] + (if elc > 1 {
        blank_rows(aw as nat, (elc / 2) as nat) + seq!['\n']
    } else {
        Seq::empty()
    }) + bordered_rows(lines, aw) + (if elc != 0 {
        blank_rows(aw as nat, ((elc + 1) / 2) as nat) + seq!['\n']
    } else {
        Seq::empty()
    }) + border_line(aw as nat)
}

/// The full rendering of a label: its lines centred to the longest one
/// and joined by line breaks.
pub open spec fn label_render(label: Seq<char>) -> Seq<char> {
    let lines = split_lines(label);
    centred_rows(lines, max_line_len(lines))
}

/// A component's column width: its longest rendered line.
pub open spec fn component_width(s: Seq<char>) -> int {
    max_line_len(split_lines(s))
}

/// One cell of the composed screen: component text `s` at row `j`, padded
/// to the component's width; a component shorter than the screen fills
/// its column with spaces.
pub open spec fn grid_cell(s: Seq<char>, j: int) -> Seq<char> {
    let ls = split_lines(s);
    let w = component_width(s);
    if 0 <= j < ls.len() {
        ls[j] + char_repeat(' ', (w - ls[j].len()) as nat)
    } else {
        char_repeat(' ', w as nat)
    }
}

/// Row `j` across the first `c` components.
pub open spec fn grid_row(rs: Seq<Seq<char>>, j: int, c: int) -> Seq<char>
    decreases c,
{
    if c <= 0 {
        Seq::empty()
    } else {
        grid_row(rs, j, c - 1) + grid_cell(rs[c - 1], j)
    }
}

/// The first `n` rows of the composed screen, each ending in a line
/// break.
pub open spec fn grid(rs: Seq<Seq<char>>, n: int) -> Seq<char>
    decreases n,
{
    if n <= 0 {
        Seq::empty()
    } else {
        grid(rs, n - 1) + grid_row(rs, n - 1, rs.len() as int) + seq!['\n']
    }
}

/// The tallest component's height, in lines.
pub open spec fn max_height(rs: Seq<Seq<char>>) -> int
    decreases rs.len(),
{
    if rs.len() == 0 {
        0
    } else {
        let m = max_height(rs.drop_last());
        if split_lines(rs.last()).len() > m {
            split_lines(rs.last()).len() as int
        } else {
            m
        }
    }
}

/// The whole composed screen: the components' renderings side by side,
/// column by column.
pub open spec fn screen_grid(rs: Seq<Seq<char>>) -> Seq<char> {
    grid(rs, max_height(rs))
}

/// Lays the rendered components out side by side: row by row, each
/// component contributes its line for that row padded to its own width,
/// or a blank column once its lines have run out.
pub fn compose_screen(renders: &Vec<String>) -> (r: String)
    requires
        forall|i: int| 0 <= i < renders@.len() ==> (#[trigger] renders@[i])@.len()
            < u32::MAX,
    ensures
        r@ == screen_grid(views(renders@)),
{
    let ghost rs = views(renders@);

    // Split every component once and remember each column's width.
    let mut lines: Vec<Vec<String>> = Vec::new();
    let mut widths: Vec<u32> = Vec::new();
    let mut total_height: usize = 0;
    let mut i: usize = 0;
    while i < renders.len()
        invariant
            i <= renders@.len(),
            rs == views(renders@),
            forall|k: int| 0 <= k < renders@.len() ==> (#[trigger] renders@[k])@.len()
                < u32::MAX,
            lines@.len() == i,
            widths@.len() == i,
            forall|k: int| 0 <= k < i ==> views((#[trigger] lines@[k])@) == split_lines(
                rs[k],
            ),
            forall|k: int| 0 <= k < i ==> (#[trigger] widths@[k]) == component_width(rs[k]),
            total_height == max_height(rs.take(i as int)),
            forall|k: int| 0 <= k < i ==> (#[trigger] lines@[k])@.len() <= total_height,
        decreases renders@.len() - i,
    {
        let component_lines = crate::text::split_lines_exec(renders[i].as_str());

        let mut w: u32 = 0;
        let mut j: usize = 0;
        proof {
            lemma_max_line_len_nonneg(views(component_lines@).take(0));
        }
        while j < component_lines.len()
            invariant
                j <= component_lines@.len(),
                views(component_lines@) == split_lines(rs[i as int]),
                rs[i as int].len() < u32::MAX,
                i < rs.len(),
                w == max_line_len(views(component_lines@).take(j as int)),
                w <= u32::MAX - 1,
            decreases component_lines@.len() - j,
        {
            proof {
                assert(views(component_lines@).take(j + 1 as int).drop_last() =~= views(
                    component_lines@,
                ).take(j as int));
                assert(views(component_lines@).take(j + 1 as int).last()
                    == component_lines@[j as int]@);
                crate::text::lemma_split_lines_len(rs[i as int], j as int);
            }
            let lw = component_lines[j].as_str().unicode_len();
            if (lw as u32) > w {
                w = lw as u32;
            }
            j += 1;
        }
        proof {
            assert(views(component_lines@).take(component_lines@.len() as int) =~= views(
                component_lines@,
            ));
        }

        if component_lines.len() > total_height {
            total_height = component_lines.len();
        }
        proof {
            assert(rs.take(i + 1 as int).drop_last() =~= rs.take(i as int));
            assert(rs.take(i + 1 as int).last() == rs[i as int]);
        }
        lines.push(component_lines);
        widths.push(w);
        i += 1;
    }
    proof {
        assert(rs.take(rs.len() as int) =~= rs);
    }

    let mut result = String::new();
    let mut row: usize = 0;
    proof {
        assert(result@ =~= grid(rs, 0));
    }
    while row < total_height
        invariant
            row <= total_height,
            rs == views(renders@),
            lines@.len() == rs.len(),
            widths@.len() == rs.len(),
            forall|k: int| 0 <= k < rs.len() ==> views((#[trigger] lines@[k])@)
                == split_lines(rs[k]),
            forall|k: int| 0 <= k < rs.len() ==> (#[trigger] widths@[k])
                == component_width(rs[k]),
            total_height == max_height(rs),
            result@ == grid(rs, row as int),
        decreases total_height - row,
    {
        let mut c: usize = 0;
        while c < lines.len()
            invariant
                c <= lines@.len(),
                rs == views(renders@),
                lines@.len() == rs.len(),
                widths@.len() == rs.len(),
                forall|k: int| 0 <= k < rs.len() ==> views((#[trigger] lines@[k])@)
                    == split_lines(rs[k]),
                forall|k: int| 0 <= k < rs.len() ==> (#[trigger] widths@[k])
                    == component_width(rs[k]),
                result@ == grid(rs, row as int) + grid_row(rs, row as int, c as int),
            decreases lines@.len() - c,
        {
            let ghost before = result@;
            let component = &lines[c];
            if row < component.len() {
                let line = &component[row];
                proof {
                    assert(line@ == split_lines(rs[c as int])[row as int]);
                    lemma_max_line_len(views(component@), row as int);
                }
                result.append(line.as_str());
                push_spaces(&mut result, widths[c] - (line.as_str().unicode_len() as u32));
            } else {
                proof {
                    lemma_max_line_len_nonneg(split_lines(rs[c as int]));
                }
                push_spaces(&mut result, widths[c]);
            }
            proof {
                assert(result@ =~= before + grid_cell(rs[c as int], row as int));
                assert(result@ =~= grid(rs, row as int) + grid_row(
                    rs,
                    row as int,
                    c + 1 as int,
                ));
            }
            c += 1;
        }
        result.append("\n");
        proof {
            reveal_strlit("\n");
            assert("\n"@ =~= seq!['\n']);
            assert(result@ =~= grid(rs, row + 1 as int));
        }
        row += 1;
    }
    result
}

/// Something that can draw itself as a multi-line string. Each drawable
/// kind states what it needs of itself before it can draw.
pub trait Draw {
    spec fn draw_requires(&self) -> bool;

    fn draw(&self) -> (r: String)
        requires
            self.draw_requires(),
    ;
}

/// A list of components, all of one drawable kind.
pub struct Screen<T: Draw> {
    pub components: Vec<T>,
}

pub struct Button {
    pub width: u32,
    pub height: u32,
    pub label: String,
}

pub struct Label {
    pub label: String,
}

/// Appends `n` spaces.
fn push_spaces(r: &mut String, n: u32)
    ensures
        final(r)@ == old(r)@ + char_repeat(' ', n as nat),
{
    proof {
        reveal_strlit(" ");
    }
    let mut i: u32 = 0;
    proof {
        assert(old(r)@ + char_repeat(' ', 0) =~= old(r)@);
    }
    while i < n
        invariant
            i <= n,
            r@ == old(r)@ + char_repeat(' ', i as nat),
        decreases n - i,
    {
        r.append(" ");
        proof {
            reveal_strlit(" ");
            assert(" "@ =~= seq![' ']);
            assert(old(r)@ + char_repeat(' ', (i + 1) as nat) =~= (old(r)@ + char_repeat(
                ' ',
                i as nat,
            )) + " "@);
        }
        i += 1;
    }
}

/// Appends a horizontal border of width `aw`.
fn push_border(r: &mut String, aw: u32)
    ensures
        final(r)@ == old(r)@ + border_line(aw as nat),
{
    proof {
        reveal_strlit("+");
        reveal_strlit("-");
        assert(old(r)@ + border_line(aw as nat).take(0) =~= old(r)@);
    }
    let mut ele: u32 = 0;
    while ele < aw
        invariant
            ele <= aw,
            r@ == old(r)@ + border_line(aw as nat).take(ele as int),
        decreases aw - ele,
    {
        if ele == 0 || ele == aw - 1 {
            r.append("+");
        } else {
            r.append("-");
        }
        proof {
            reveal_strlit("+");
            reveal_strlit("-");
            assert("+"@ =~= seq!['+']);
            assert("-"@ =~= seq!['-']);
            assert(border_line(aw as nat).take(ele + 1 as int) =~= border_line(
                aw as nat,
            ).take(ele as int).push(border_line(aw as nat)[ele as int]));
            assert(r@ =~= old(r)@ + border_line(aw as nat).take(ele + 1 as int));
        }
        ele += 1;
    }
    proof {
        assert(border_line(aw as nat).take(aw as int) =~= border_line(aw as nat));
    }
}

/// Appends `n` empty interior rows.
fn push_blank_rows(r: &mut String, aw: u32, n: u32)
    requires
        aw >= 2,
    ensures
        final(r)@ == old(r)@ + blank_rows(aw as nat, n as nat),
{
    proof {
        reveal_strlit("|");
        assert(old(r)@ + blank_rows(aw as nat, 0) =~= old(r)@);
    }
    let mut j: u32 = 0;
    while j < n
        invariant
            aw >= 2,
            j <= n,
            r@ == old(r)@ + blank_rows(aw as nat, j as nat),
        decreases n - j,
    {
        r.append("|");
        push_spaces(r, aw - 2);
        r.append("|");
        proof {
            reveal_strlit("|");
            assert("|"@ =~= seq!['|']);
            assert(blank_line(aw as nat) =~= seq!['|'] + char_repeat(
                ' ',
                (aw - 2) as nat,
            ) + seq!['|']);
            assert(r@ =~= old(r)@ + blank_rows(aw as nat, (j + 1) as nat));
        }
        j += 1;
    }
}

/// Appends one bordered text row.
fn push_bordered_row(r: &mut String, line: &String, aw: u32)
    requires
        line@.len() + 2 <= aw,
    ensures
        final(r)@ == old(r)@ + bordered_row(line@, aw as int),
{
    proof {
        reveal_strlit("|");
        reveal_strlit("\n");
    }
    let rem = aw - 2 - (line.unicode_len() as u32);
    r.append("|");
    push_spaces(r, rem / 2);
    r.append(line.as_str());
    push_spaces(r, (rem + 1) / 2);
    r.append("|");
    r.append("\n");
    proof {
        assert("|"@ =~= seq!['|']);
        assert("\n"@ =~= seq!['\n']);
        assert(r@ =~= old(r)@ + bordered_row(line@, aw as int));
    }
}

/// Appends every line of the label as a bordered row.
fn push_bordered_rows(r: &mut String, lines: &Vec<String>, aw: u32)
    requires
        forall|i: int| 0 <= i < lines@.len() ==> (#[trigger] lines@[i])@.len() + 2 <= aw,
    ensures
        final(r)@ == old(r)@ + bordered_rows(views(lines@), aw as int),
{
    let mut i: usize = 0;
    proof {
        assert(old(r)@ + bordered_rows(views(lines@).take(0), aw as int) =~= old(r)@);
    }
    while i < lines.len()
        invariant
            i <= lines@.len(),
            forall|k: int| 0 <= k < lines@.len() ==> (#[trigger] lines@[k])@.len() + 2
                <= aw,
            r@ == old(r)@ + bordered_rows(views(lines@).take(i as int), aw as int),
        decreases lines@.len() - i,
    {
        push_bordered_row(r, &lines[i], aw);
        proof {
            assert(views(lines@).take(i + 1 as int).drop_last() =~= views(lines@).take(
                i as int,
            ));
            assert(views(lines@).take(i + 1 as int).last() == lines@[i as int]@);
        }
        i += 1;
    }
    proof {
        assert(views(lines@).take(lines@.len() as int) =~= views(lines@));
    }
}

impl Draw for Button {
    /// The label must leave room for the frame's arithmetic.
    open spec fn draw_requires(&self) -> bool {
        self.label@.len() + 2 <= u32::MAX
    }

    /// Renders the button: the label's lines centred in a `+`/`-`/`|`
    /// frame sized to the label, the requested width and height, and the
    /// label's white-space count.
    fn draw(&self) -> (r: String)
        ensures
            r@ == button_render(self.width, self.height, self.label@),
    {
        proof {
            reveal_strlit("\n");
        }
        let ghost spec_lines = split_lines(self.label@);
        let lines = crate::text::split_lines_exec(self.label.as_str());

        let mut max_line_width: u32 = 0;
        let mut i: usize = 0;
        proof {
            lemma_max_line_len_nonneg(views(lines@).take(0));
        }
        while i < lines.len()
            invariant
                i <= lines@.len(),
                views(lines@) == spec_lines,
                spec_lines == split_lines(self.label@),
                self.label@.len() + 2 <= u32::MAX,
                max_line_width == max_line_len(views(lines@).take(i as int)),
                max_line_width + 2 <= u32::MAX,
            decreases lines@.len() - i,
        {
            proof {
                assert(views(lines@).take(i + 1 as int).drop_last() =~= views(
                    lines@,
                ).take(i as int));
                assert(views(lines@).take(i + 1 as int).last() == lines@[i as int]@);
                crate::text::lemma_split_lines_len(self.label@, i as int);
            }
            let w = lines[i].as_str().unicode_len();
            if (w as u32) > max_line_width {
                max_line_width = w as u32;
            }
            i += 1;
        }
        proof {
            assert(views(lines@).take(lines@.len() as int) =~= views(lines@));
        }

        let line_count = count_spaces(self.label.as_str());

        let actual_width = if self.width >= max_line_width + 2 {
            self.width
        } else {
            max_line_width + 2
        };
        let actual_height = if self.height >= line_count + 2 {
            self.height
        } else {
            line_count + 2
        };
        let empty_line_count = actual_height - 2 - line_count;

        let mut result = String::new();

        push_border(&mut result, actual_width);
        result.append("\n");

        if empty_line_count > 1 {
            push_blank_rows(&mut result, actual_width, empty_line_count / 2);
            result.append("\n");
        }

        proof {
            assert forall|k: int| 0 <= k < lines@.len() implies (#[trigger] lines@[k])@.len()
                + 2 <= actual_width by {
                lemma_max_line_len(views(lines@), k);
            }
        }
        push_bordered_rows(&mut result, &lines, actual_width);

        if empty_line_count != 0 {
            push_blank_rows(&mut result, actual_width, (empty_line_count + 1) / 2);
            result.append("\n");
        }

        push_border(&mut result, actual_width);

        proof {
            assert("\n"@ =~= seq!['\n']);
            assert(result@ =~= button_render(self.width, self.height, self.label@));
        }
        result
    }
}

/// Counts the white-space characters of a text.
fn count_spaces(s: &str) -> (r: u32)
    requires
        s@.len() + 2 <= u32::MAX,
    ensures
        r == space_count(s@),
        r <= s@.len(),
{
    let len = s.unicode_len();
    let mut count: u32 = 0;
    let mut i: usize = 0;
    while i < len
        invariant
            len == s@.len(),
            s@.len() + 2 <= u32::MAX,
            i <= len,
            count == space_count(s@.take(i as int)),
            count <= i,
        decreases len - i,
    {
        proof {
            assert(s@.take(i + 1 as int).drop_last() =~= s@.take(i as int));
            assert(s@.take(i + 1 as int).last() == s@[i as int]);
        }
        if crate::lifetimes::is_space_char(s.get_char(i)) {
            count += 1;
        }
        i += 1;
    }
    proof {
        assert(s@.take(len as int) =~= s@);
    }
    count
}

impl Draw for Label {
    /// The label must be measurable in the width arithmetic.
    open spec fn draw_requires(&self) -> bool {
        self.label@.len() < u32::MAX
    }

    /// Renders the label: each line centred to the longest one, joined by
    /// line breaks.
    fn draw(&self) -> (r: String)
        ensures
            r@ == label_render(self.label@),
    {
        proof {
            reveal_strlit("\n");
            reveal_strlit(" ");
        }
        let ghost spec_lines = split_lines(self.label@);
        let lines = crate::text::split_lines_exec(self.label.as_str());

        let mut actual_width: u32 = 0;
        let mut i: usize = 0;
        while i < lines.len()
            invariant
                i <= lines@.len(),
                views(lines@) == spec_lines,
                spec_lines == split_lines(self.label@),
                self.label@.len() < u32::MAX,
                actual_width == max_line_len(views(lines@).take(i as int)),
                actual_width <= self.label@.len(),
            decreases lines@.len() - i,
        {
            proof {
                assert(views(lines@).take(i + 1 as int).drop_last() =~= views(
                    lines@,
                ).take(i as int));
                assert(views(lines@).take(i + 1 as int).last() == lines@[i as int]@);
                crate::text::lemma_split_lines_len(self.label@, i as int);
            }
            let w = lines[i].as_str().unicode_len();
            if (w as u32) > actual_width {
                actual_width = w as u32;
            }
            i += 1;
        }
        proof {
            assert(views(lines@).take(lines@.len() as int) =~= views(lines@));
        }

        proof {
            assert forall|k: int| 0 <= k < lines@.len() implies (#[trigger] lines@[k])@.len()
                <= actual_width by {
                lemma_max_line_len(views(lines@), k);
            }
        }
        let mut result = String::new();
        let mut i: usize = 0;
        proof {
            assert(result@ =~= centred_rows(views(lines@).take(0), actual_width as int));
        }
        while i < lines.len()
            invariant
                i <= lines@.len(),
                views(lines@) == spec_lines,
                self.label@.len() < u32::MAX,
                actual_width <= self.label@.len(),
                result@ == centred_rows(views(lines@).take(i as int), actual_width as int),
                forall|k: int| 0 <= k < lines@.len() ==> (#[trigger] lines@[k])@.len()
                    <= actual_width,
            decreases lines@.len() - i,
        {
            if i > 0 {
                result.append("\n");
            }
            let remaining_space = actual_width - (lines[i].unicode_len() as u32);
            push_spaces(&mut result, remaining_space / 2);
            result.append(lines[i].as_str());
            push_spaces(&mut result, (remaining_space + 1) / 2);
            proof {
                reveal_strlit("\n");
                assert("\n"@ =~= seq!['\n']);
                assert(views(lines@).take(i + 1 as int).drop_last() =~= views(
                    lines@,
                ).take(i as int));
                assert(views(lines@).take(i + 1 as int).last() == lines@[i as int]@);
                assert(result@ =~= centred_rows(
                    views(lines@).take(i + 1 as int),
                    actual_width as int,
                ));
            }
            i += 1;
        }
        proof {
            assert(views(lines@).take(lines@.len() as int) =~= views(lines@));
        }
        result
    }
}

} // verus!
