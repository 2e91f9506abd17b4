//! Composition of art lines and information lines into output lines.

use vstd::prelude::*;
use crate::display_plan::LayoutKind;
use crate::terminal::{
    ends_ground, lemma_plain_width, lemma_width_concat, visible_width_chars, visible_width_spec,
};
use crate::text::{chars_of, extend_chars, string_of};

verus! {

/// `n` spaces.
pub open spec fn spaces(n: nat) -> Seq<char> {
    Seq::new(n, |i: int| ' ')
}

/// The `i`-th line of `lines`, or the empty line past the end.
pub open spec fn line_or_empty(lines: Seq<String>, i: int) -> Seq<char> {
    if 0 <= i < lines.len() {
        lines[i]@
    } else {
        Seq::empty()
    }
}

/// The views of a sequence of lines.
pub open spec fn views(lines: Seq<String>) -> Seq<Seq<char>> {
    Seq::new(lines.len(), |i: int| lines[i]@)
}

/// Padding after an art line: the gap plus what the art line lacks of the
/// art width.
pub open spec fn padding_for(art_line: Seq<char>, art_width: usize, gap: usize) -> nat {
    (gap + if visible_width_spec(art_line) <= art_width {
        art_width - visible_width_spec(art_line)
    } else {
        0
    }) as nat
}

/// Line `i` of the side-by-side composition.
pub open spec fn side_by_side_line(
    art: Seq<String>,
    info: Seq<String>,
    art_width: usize,
    gap: usize,
    i: int,
) -> Seq<char> {
    let a = line_or_empty(art, i);
    a + spaces(padding_for(a, art_width, gap)) + line_or_empty(info, i)
}

/// The stacked composition: art lines, one empty separator line when both
/// blocks are non-empty, then information lines.
pub open spec fn stacked_spec(art: Seq<Seq<char>>, info: Seq<Seq<char>>) -> Seq<Seq<char>> {
    if art.len() > 0 && info.len() > 0 {
        art + seq![Seq::<char>::empty()] + info
    } else {
        art + info
    }
}

fn push_spaces(v: &mut Vec<char>, n: usize)
    ensures
        final(v)@ == old(v)@ + spaces(n as nat),
{
    let mut i: usize = 0;
    while i < n
        invariant
            i <= n,
            v@ == old(v)@ + spaces(i as nat),
        decreases n - i,
    {
        v.push(' ');
        i = i + 1;
        assert(v@ =~= old(v)@ + spaces(i as nat));
    }
}

/// Side-by-side composition: each art line is padded to the art width plus
/// the gap (measured in visible columns, so ANSI sequences in the art do
/// not shift the information), then followed by the information line.
pub fn compose_side_by_side(
    art_lines: &[String],
    info_lines: &[String],
    art_width: usize,
    gap: usize,
) -> (result: Vec<String>)
    requires
        gap + art_width <= usize::MAX,
    ensures
        result@.len() == if art_lines@.len() >= info_lines@.len() {
            art_lines@.len()
        } else {
            info_lines@.len()
        },
        forall|i: int|
            0 <= i < result@.len() ==> #[trigger] result@[i]@ == side_by_side_line(
                art_lines@,
                info_lines@,
                art_width,
                gap,
                i,
            ),
{
    let mut result: Vec<String> = Vec::new();
    let max_lines = if art_lines.len() >= info_lines.len() {
        art_lines.len()
    } else {
        info_lines.len()
    };
    let mut i: usize = 0;
    while i < max_lines
        invariant
            gap + art_width <= usize::MAX,
            max_lines == if art_lines@.len() >= info_lines@.len() {
                art_lines@.len()
            } else {
                info_lines@.len()
            },
            i <= max_lines,
            result@.len() == i,
            forall|j: int|
                0 <= j < i ==> #[trigger] result@[j]@ == side_by_side_line(
                    art_lines@,
                    info_lines@,
                    art_width,
                    gap,
                    j,
                ),
        decreases max_lines - i,
    {
        let art_line: Vec<char> = if i < art_lines.len() {
            chars_of(art_lines[i].as_str())
        } else {
            Vec::new()
        };
        let info_line: Vec<char> = if i < info_lines.len() {
            chars_of(info_lines[i].as_str())
        } else {
            Vec::new()
        };
        let art_vis_width = visible_width_chars(&art_line);
        let padding = gap + art_width.saturating_sub(art_vis_width);
        let mut line = art_line;
        push_spaces(&mut line, padding);
        extend_chars(&mut line, &info_line);
        result.push(string_of(&line));
        i = i + 1;
    }
    result
}

/// Stacked composition: art lines, one empty separator line only when both
/// blocks are non-empty, then the information lines.
pub fn compose_stacked(art_lines: &[String], info_lines: &[String]) -> (result: Vec<String>)
    ensures
        views(result@) == stacked_spec(views(art_lines@), views(info_lines@)),
{
    let mut result: Vec<String> = Vec::new();
    let mut i: usize = 0;
    while i < art_lines.len()
        invariant
            i <= art_lines@.len(),
            result@.len() == i,
            views(result@) == views(art_lines@).take(i as int),
        decreases art_lines@.len() - i,
    {
        let v = chars_of(art_lines[i].as_str());
        let ghost before = result@;
        result.push(string_of(&v));
        assert(result@ == before.push(result@[i as int]));
        assert forall|j: int| 0 <= j <= i implies views(result@)[j] == views(art_lines@)[j] by {
            if j < i {
                assert(views(result@)[j] == result@[j]@);
                assert(result@[j] == before[j]);
                assert(views(before)[j] == before[j]@);
            }
        }
        i = i + 1;
        assert(views(result@) =~= views(art_lines@).take(i as int));
    }
    assert(views(art_lines@).take(art_lines@.len() as int) =~= views(art_lines@));
    let ghost prefix = views(result@);
    if art_lines.len() > 0 && info_lines.len() > 0 {
        result.push(String::new());
        assert(views(result@) =~= views(art_lines@) + seq![Seq::<char>::empty()]);
    }
    let ghost head = views(result@);
    let mut k: usize = 0;
    while k < info_lines.len()
        invariant
            k <= info_lines@.len(),
            result@.len() == head.len() + k,
            views(result@) == head + views(info_lines@).take(k as int),
        decreases info_lines@.len() - k,
    {
        let v = chars_of(info_lines[k].as_str());
        let ghost before = result@;
        result.push(string_of(&v));
        assert(result@ == before.push(result@[before.len() as int]));
        assert forall|j: int| 0 <= j < result@.len() implies views(result@)[j] == (head + views(
            info_lines@,
        ).take(k + 1))[j] by {
            if j < before.len() {
                assert(views(result@)[j] == result@[j]@);
                assert(result@[j] == before[j]);
                assert(views(before)[j] == before[j]@);
            }
        }
        k = k + 1;
        assert(views(result@) =~= head + views(info_lines@).take(k as int));
    }
    assert(views(info_lines@).take(info_lines@.len() as int) =~= views(info_lines@));
    result
}

/// Composition for the chosen layout (side by side uses a two-column gap).
pub fn compose_layout(
    art_lines: &[String],
    info_lines: &[String],
    art_width: usize,
    layout: LayoutKind,
) -> (result: Vec<String>)
    requires
        layout == LayoutKind::SideBySide ==> art_width + 2 <= usize::MAX,
    ensures
        layout == LayoutKind::Stacked ==> views(result@) == stacked_spec(
            views(art_lines@),
            views(info_lines@),
        ),
        layout == LayoutKind::SideBySide ==> {
            &&& result@.len() == if art_lines@.len() >= info_lines@.len() {
                art_lines@.len()
            } else {
                info_lines@.len()
            }
            &&& forall|i: int|
                0 <= i < result@.len() ==> #[trigger] result@[i]@ == side_by_side_line(
                    art_lines@,
                    info_lines@,
                    art_width,
                    2,
                    i,
                )
        },
{
    match layout {
        LayoutKind::SideBySide => compose_side_by_side(art_lines, info_lines, art_width, 2),
        LayoutKind::Stacked => compose_stacked(art_lines, info_lines),
    }
}

/// On every side-by-side line whose art part is no wider than the art
/// width on screen (and does not end inside an escape sequence), the
/// information starts exactly `gap + art_width` columns from the left edge:
/// ANSI sequences in the art do not shift the information, so the
/// information block forms an aligned column.
pub proof fn lemma_info_column_aligned(
    art: Seq<String>,
    info: Seq<String>,
    art_width: usize,
    gap: usize,
    i: int,
)
    requires
        gap + art_width <= usize::MAX,
        ends_ground(line_or_empty(art, i)),
        visible_width_spec(line_or_empty(art, i)) <= art_width,
    ensures
        ({
            let a = line_or_empty(art, i);
            let prefix = a + spaces(padding_for(a, art_width, gap));
            &&& side_by_side_line(art, info, art_width, gap, i) == prefix + line_or_empty(info, i)
            &&& visible_width_spec(prefix) == gap + art_width
        }),
{
    let a = line_or_empty(art, i);
    let pad = spaces(padding_for(a, art_width, gap));
    assert forall|k: int| 0 <= k < pad.len() implies pad[k] != '\u{1b}' by {}
    lemma_plain_width(pad);
    lemma_width_concat(a, pad);
}

} // verus!
