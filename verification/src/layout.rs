//! Layout arithmetic of the display: which rows are visible and where
//! they go, which color the timer has, where its glyphs go.
use vstd::prelude::*;
use vstd::string::StrSliceExecFns;
use crate::timer::state::{SplitStatus, StateChange};

verus! {

/// Index of the entry of the glyph offsets that holds the offset past the
/// last glyph, and from which the width of the gap between two glyphs of
/// the atlas is measured.
pub const GAP_START: usize = 13;

/// Index of the entry that ends the gap.
pub const GAP_END: usize = 14;

/// Index of the entry that holds the advance of a digit.
pub const ADVANCE: usize = 15;

/// How many glyphs, counted from the right, are drawn at four fifths of
/// their size: the fraction of a second and its separator.
pub const SMALL_GLYPHS: usize = 4;

/// The place of `c` in the atlas `- 0 1 2 3 4 5 6 7 8 9 : .`; a character
/// that the atlas lacks is drawn as the first glyph.
pub open spec fn glyph_index(c: char) -> int {
    if c == '0' {
        1
    } else if c == '1' {
        2
    } else if c == '2' {
        3
    } else if c == '3' {
        4
    } else if c == '4' {
        5
    } else if c == '5' {
        6
    } else if c == '6' {
        7
    } else if c == '7' {
        8
    } else if c == '8' {
        9
    } else if c == '9' {
        10
    } else if c == ':' {
        11
    } else if c == '.' {
        12
    } else {
        0
    }
}

/// Whether `c` separates groups of digits; a separator advances by its
/// own width.
pub open spec fn is_separator(c: char) -> bool {
    c == ':' || c == '.'
}

/// Four fifths of `v`, rounded down.
pub open spec fn small(v: int) -> int {
    v * 8 / 10
}

/// The width of the gap between two glyphs of the atlas.
pub open spec fn gap(coords: Seq<u32>) -> int {
    coords[GAP_END as int] - coords[GAP_START as int]
}

/// The width of glyph `g`.
pub open spec fn glyph_width(coords: Seq<u32>, g: int) -> int {
    coords[g + 1] - coords[g]
}

/// How far the `k`-th glyph from the right, showing `c`, moves the pen to
/// the left.
pub open spec fn advance(coords: Seq<u32>, c: char, k: int) -> int {
    if is_separator(c) {
        glyph_width(coords, glyph_index(c))
    } else if k < SMALL_GLYPHS {
        small(coords[ADVANCE as int] as int)
    } else {
        coords[ADVANCE as int] as int
    }
}

/// The distance of the pen from the right edge after the first `k` glyphs
/// of `glyphs`, which are in drawing order, from the right.
pub open spec fn pen(coords: Seq<u32>, glyphs: Seq<char>, k: int) -> int
    decreases k,
{
    if k <= 0 {
        0
    } else {
        pen(coords, glyphs, k - 1) + advance(coords, glyphs[k - 1], k - 1)
    }
}

/// Where the `k`-th glyph from the right goes: the offset and width of
/// its source in the atlas, the distance of its left edge from the right
/// edge of the window, and the width it is drawn at.
pub open spec fn placement(coords: Seq<u32>, glyphs: Seq<char>, k: int) -> (int, int, int, int) {
    let g = glyph_index(glyphs[k]);
    let width = glyph_width(coords, g);
    (
        coords[g] + g * gap(coords),
        width,
        pen(coords, glyphs, k + 1),
        if k < SMALL_GLYPHS {
            small(width)
        } else {
            width
        },
    )
}

/// Whether the `k`-th glyph from the right, showing `c`, can be placed
/// in 32-bit arithmetic: its width is not negative and neither its source
/// offset nor a size scaled to four fifths overflows.
pub open spec fn glyph_fits(coords: Seq<u32>, c: char, k: int) -> bool {
    let g = glyph_index(c);
    &&& coords[g] <= coords[g + 1]
    &&& coords[g] + g * gap(coords) <= u32::MAX
    &&& k < SMALL_GLYPHS ==> glyph_width(coords, g) * 8 <= u32::MAX
    &&& k < SMALL_GLYPHS && !is_separator(c) ==> coords[ADVANCE as int] * 8 <= u32::MAX
}

/// Whether the glyphs `glyphs`, in drawing order, can be laid out with the
/// offsets `coords` in 32-bit arithmetic.
pub open spec fn layout_fits(coords: Seq<u32>, glyphs: Seq<char>) -> bool {
    &&& coords.len() > ADVANCE
    &&& coords[GAP_START as int] <= coords[GAP_END as int]
    &&& forall|k: int| 0 <= k < glyphs.len() ==> glyph_fits(coords, #[trigger] glyphs[k], k)
    &&& pen(coords, glyphs, glyphs.len() as int) <= u32::MAX
}

/// The pen only ever moves to the left.
pub proof fn lemma_pen_monotonic(coords: Seq<u32>, glyphs: Seq<char>, i: int, j: int)
    requires
        coords.len() > ADVANCE,
        0 <= i <= j <= glyphs.len(),
        forall|k: int| 0 <= k < glyphs.len() ==> glyph_fits(coords, #[trigger] glyphs[k], k),
    ensures
        0 <= pen(coords, glyphs, i) <= pen(coords, glyphs, j),
    decreases j,
{
    if j > 0 {
        assert(glyph_fits(coords, glyphs[j - 1], j - 1));
        if i == j {
            lemma_pen_monotonic(coords, glyphs, i - 1, j - 1);
        } else {
            lemma_pen_monotonic(coords, glyphs, i, j - 1);
        }
    }
}

/// The place of `c` in the atlas.
fn glyph_of(c: char) -> (g: usize)
    ensures
        g == glyph_index(c),
        g <= 12,
{
    if c == '0' {
        1
    } else if c == '1' {
        2
    } else if c == '2' {
        3
    } else if c == '3' {
        4
    } else if c == '4' {
        5
    } else if c == '5' {
        6
    } else if c == '6' {
        7
    } else if c == '7' {
        8
    } else if c == '8' {
        9
    } else if c == '9' {
        10
    } else if c == ':' {
        11
    } else if c == '.' {
        12
    } else {
        0
    }
}

/// Whether the text `time_str` can be laid out with the offsets `coords`
/// in 32-bit arithmetic.
pub fn can_lay_out(time_str: &str, coords: &[u32]) -> (fits: bool)
    ensures
        fits == layout_fits(coords@, time_str@.reverse()),
{
    let ghost glyphs = time_str@.reverse();
    if coords.len() <= ADVANCE || coords[GAP_START] > coords[GAP_END] {
        return false;
    }
    let space: u64 = (coords[GAP_END] - coords[GAP_START]) as u64;
    let n: usize = time_str.unicode_len();
    let mut x: u64 = 0;
    let mut k: usize = 0;
    while k < n
        invariant
            k <= n,
            n == time_str@.len(),
            glyphs == time_str@.reverse(),
            coords@.len() > ADVANCE,
            coords@[GAP_START as int] <= coords@[GAP_END as int],
            space == gap(coords@),
            forall|j: int| 0 <= j < k ==> glyph_fits(coords@, #[trigger] glyphs[j], j),
            x == pen(coords@, glyphs, k as int),
            x <= u32::MAX,
        decreases n - k,
    {
        let c: char = time_str.get_char(n - 1 - k);
        assert(c == glyphs[k as int]);
        let g: usize = glyph_of(c);
        let small: bool = k < SMALL_GLYPHS;
        let separator: bool = c == ':' || c == '.';
        if coords[g] > coords[g + 1] {
            assert(!glyph_fits(coords@, glyphs[k as int], k as int));
            return false;
        }
        let width: u64 = (coords[g + 1] - coords[g]) as u64;
        assert((g as u64) * space <= 12 * 0xffff_ffff) by (nonlinear_arith)
            requires
                g <= 12,
                space <= 0xffff_ffff,
        ;
        if coords[g] as u64 + (g as u64) * space > u32::MAX as u64 || (small && width * 8
            > u32::MAX as u64) || (small && !separator && coords[ADVANCE] as u64 * 8
            > u32::MAX as u64) {
            assert(!glyph_fits(coords@, glyphs[k as int], k as int));
            return false;
        }
        let step: u64 = if separator {
            width
        } else if small {
            coords[ADVANCE] as u64 * 8 / 10
        } else {
            coords[ADVANCE] as u64
        };
        assert(step == advance(coords@, c, k as int));
        if x + step > u32::MAX as u64 {
            proof {
                if layout_fits(coords@, glyphs) {
                    lemma_pen_monotonic(coords@, glyphs, k + 1, n as int);
                }
            }
            return false;
        }
        x = x + step;
        k = k + 1;
    }
    true
}

/// Lays out the text of the timer from the right: for each character,
/// last one first, the offset and width of its glyph in the atlas, the
/// distance of its left edge from the right edge of the window and the
/// width it is drawn at. The last four glyphs, the fraction of a second,
/// are drawn at four fifths of their size.
pub fn get_coords(time_str: String, coords: &[u32]) -> (placed: Vec<(u32, u32, u32, u32)>)
    requires
        layout_fits(coords@, time_str@.reverse()),
    ensures
        placed@.len() == time_str@.len(),
        forall|k: int|
            0 <= k < placed@.len() ==> {
                let at = placement(coords@, time_str@.reverse(), k);
                &&& (#[trigger] placed@[k]).0 == at.0
                &&& placed@[k].1 == at.1
                &&& placed@[k].2 == at.2
                &&& placed@[k].3 == at.3
            },
{
    let text: &str = time_str.as_str();
    let n: usize = text.unicode_len();
    let ghost glyphs = time_str@.reverse();
    let mut placed: Vec<(u32, u32, u32, u32)> = Vec::new();
    let mut x: u32 = 0;
    let space: u32 = coords[GAP_END] - coords[GAP_START];
    let mut k: usize = 0;
    while k < n
        invariant
            k <= n,
            n == time_str@.len(),
            text@ == time_str@,
            glyphs == time_str@.reverse(),
            layout_fits(coords@, glyphs),
            space == gap(coords@),
            x == pen(coords@, glyphs, k as int),
            placed@.len() == k,
            forall|j: int|
                0 <= j < k ==> {
                    let at = placement(coords@, glyphs, j);
                    &&& (#[trigger] placed@[j]).0 == at.0
                    &&& placed@[j].1 == at.1
                    &&& placed@[j].2 == at.2
                    &&& placed@[j].3 == at.3
                },
        decreases n - k,
    {
        let c: char = text.get_char(n - 1 - k);
        assert(c == glyphs[k as int]);
        assert(glyph_fits(coords@, glyphs[k as int], k as int));
        proof {
            lemma_pen_monotonic(coords@, glyphs, k + 1, n as int);
            assert(glyph_index(c) * gap(coords@) >= 0) by (nonlinear_arith)
                requires
                    glyph_index(c) >= 0,
                    gap(coords@) >= 0,
            ;
        }
        let g: usize = glyph_of(c);
        let width: u32 = coords[g + 1] - coords[g];
        let step: u32 = if c == ':' || c == '.' {
            width
        } else if k < SMALL_GLYPHS {
            coords[ADVANCE] * 8 / 10
        } else {
            coords[ADVANCE]
        };
        x = x + step;
        let drawn: u32 = if k < SMALL_GLYPHS {
            width * 8 / 10
        } else {
            width
        };
        placed.push((coords[g] + (g as u32) * space, width, x, drawn));
        k = k + 1;
    }
    placed
}

/// The color of a timer without a status: white.
pub open spec fn plain_color() -> (u8, u8, u8) {
    (255u8, 255u8, 255u8)
}

/// The color that the timer is drawn in under `status`, out of the
/// configured colors ahead, behind, gaining, losing, gold, background.
pub open spec fn color_of(status: SplitStatus, colors: Seq<(u8, u8, u8)>) -> (u8, u8, u8) {
    match status {
        SplitStatus::NoStatus => plain_color(),
        SplitStatus::Ahead => colors[0],
        SplitStatus::Behind => colors[1],
        SplitStatus::Gaining => colors[2],
        SplitStatus::Losing => colors[3],
        SplitStatus::Gold => colors[4],
    }
}

/// The color that the timer is drawn in under `status`.
pub fn status_color(status: SplitStatus, colors: &[(u8, u8, u8); 6]) -> (color: (u8, u8, u8))
    ensures
        color == color_of(status, colors@),
{
    match status {
        SplitStatus::NoStatus => (255, 255, 255),
        SplitStatus::Ahead => colors[0],
        SplitStatus::Behind => colors[1],
        SplitStatus::Gaining => colors[2],
        SplitStatus::Losing => colors[3],
        SplitStatus::Gold => colors[4],
    }
}

/// The row of the window that shows segment `current` when the window
/// shows the segments `top` to `bottom`; `usize::MAX` when the segment is
/// out of sight.
pub fn highlighted_row(current: usize, top: usize, bottom: usize) -> (row: usize)
    ensures
        top <= current <= bottom ==> row == current - top,
        !(top <= current <= bottom) ==> row == usize::MAX,
{
    if current >= top && current <= bottom {
        current - top
    } else {
        usize::MAX
    }
}

/// Whether the timer shows a rounded time after `change`, given whether
/// it did before: it does once the attempt is paused or finished, and no
/// longer once the attempt is resumed or a segment begins.
pub open spec fn rounds_after(rounding: bool, change: StateChange) -> bool {
    match change {
        StateChange::Pause | StateChange::Finish => true,
        StateChange::Unpause { .. } | StateChange::EnterSplit { .. } => false,
        _ => rounding,
    }
}

/// Whether the timer shows a rounded time after the first `k` of the
/// events `changes`.
pub open spec fn rounds_after_all(rounding: bool, changes: Seq<StateChange>, k: int) -> bool
    decreases k,
{
    if k <= 0 {
        rounding
    } else {
        rounds_after(rounds_after_all(rounding, changes, k - 1), changes[k - 1])
    }
}

/// Whether the timer shows a rounded time after the events of a tick.
pub fn rounding_after(rounding: bool, changes: &[StateChange]) -> (after: bool)
    ensures
        after == rounds_after_all(rounding, changes@, changes@.len() as int),
{
    let mut after: bool = rounding;
    let mut k: usize = 0;
    while k < changes.len()
        invariant
            k <= changes@.len(),
            after == rounds_after_all(rounding, changes@, k as int),
        decreases changes@.len() - k,
    {
        after = match changes[k] {
            StateChange::Pause => true,
            StateChange::Finish => true,
            StateChange::Unpause { .. } => false,
            StateChange::EnterSplit { .. } => false,
            _ => after,
        };
        k = k + 1;
    }
    after
}

/// The segment in progress after `change`, given the one before: the one
/// that the event names where a segment begins.
pub open spec fn segment_after(current: usize, change: StateChange) -> usize {
    match change {
        StateChange::EnterSplit { idx } => idx,
        _ => current,
    }
}

/// The segment in progress after the first `k` of the events `changes`.
pub open spec fn segment_after_all(current: usize, changes: Seq<StateChange>, k: int) -> usize
    decreases k,
{
    if k <= 0 {
        current
    } else {
        segment_after(segment_after_all(current, changes, k - 1), changes[k - 1])
    }
}

/// The segment in progress after the events of a tick: the one that the
/// latest event that begins a segment names, and `current` where none
/// does.
pub fn current_after(current: usize, changes: &[StateChange]) -> (after: usize)
    ensures
        after == segment_after_all(current, changes@, changes@.len() as int),
{
    let mut after: usize = current;
    let mut k: usize = 0;
    while k < changes.len()
        invariant
            k <= changes@.len(),
            after == segment_after_all(current, changes@, k as int),
        decreases changes@.len() - k,
    {
        after = match changes[k] {
            StateChange::EnterSplit { idx } => idx,
            _ => after,
        };
        k = k + 1;
    }
    after
}

/// Whether the attempt comes to a stand among the events `changes`: it is
/// paused or finished.
pub open spec fn comes_to_a_stand(changes: Seq<StateChange>) -> bool {
    exists|k: int|
        0 <= k < changes.len() && (#[trigger] changes[k] == StateChange::Pause || changes[k]
            == StateChange::Finish)
}

/// Whether the highlight is hidden in a tick with the events `changes`:
/// it is in the tick in which the attempt is paused or finished.
pub fn hides_highlight(changes: &[StateChange]) -> (hidden: bool)
    ensures
        hidden == comes_to_a_stand(changes@),
{
    let mut k: usize = 0;
    while k < changes.len()
        invariant
            k <= changes@.len(),
            forall|j: int|
                0 <= j < k ==> #[trigger] changes@[j] != StateChange::Pause && changes@[j]
                    != StateChange::Finish,
        decreases changes@.len() - k,
    {
        let stand: bool = match changes[k] {
            StateChange::Pause => true,
            StateChange::Finish => true,
            _ => false,
        };
        if stand {
            return true;
        }
        k = k + 1;
    }
    false
}

/// The row to highlight: that of segment `current`, and none, which is
/// `usize::MAX`, in a tick in which the attempt comes to a stand or while
/// the segment is out of sight.
pub fn shown_highlight(standing: bool, current: usize, top: usize, bottom: usize) -> (row: usize)
    ensures
        !standing && top <= current <= bottom ==> row == current - top,
        standing || !(top <= current <= bottom) ==> row == usize::MAX,
{
    if standing {
        usize::MAX
    } else {
        highlighted_row(current, top, bottom)
    }
}

/// The height of a row of splits: one line of text when the time stands
/// beside the name, two when it stands below.
pub open spec fn row_lines(inline: bool) -> int {
    if inline {
        1
    } else {
        2
    }
}

/// The distance from the top of one row to the top of the next: the
/// lines of text and five pixels for the separator.
pub open spec fn row_pitch(splits_height: u32, inline: bool) -> int {
    splits_height * row_lines(inline) + 5
}

/// How many rows fit above the timer.
pub open spec fn rows_that_fit(
    viewport_height: u32,
    timer_height: u32,
    splits_height: u32,
    inline: bool,
) -> int {
    (viewport_height - timer_height) / row_pitch(splits_height, inline)
}

/// How many rows the window shows and the index of the lowest one: all
/// segments when they fit, else as many as fit; both zero for a record
/// without segments.
pub fn visible_rows(
    viewport_height: u32,
    timer_height: u32,
    splits_height: u32,
    inline: bool,
    segments: usize,
) -> (rows: (usize, usize))
    requires
        timer_height <= viewport_height,
        row_pitch(splits_height, inline) <= u32::MAX,
        segments == 0 || rows_that_fit(viewport_height, timer_height, splits_height, inline) >= 1,
    ensures
        ({
            let fit = rows_that_fit(viewport_height, timer_height, splits_height, inline);
            &&& segments == 0 ==> rows == (0usize, 0usize)
            &&& segments > 0 && fit > segments ==> rows == (segments, (segments - 1) as usize)
            &&& segments > 0 && fit <= segments ==> rows == (fit as usize, (fit - 1) as usize)
        }),
{
    let lines: u32 = if inline {
        1
    } else {
        2
    };
    assert(splits_height * lines == splits_height * row_lines(inline));
    let fit: usize = ((viewport_height - timer_height) / (splits_height * lines + 5)) as usize;
    if segments == 0 {
        (0, 0)
    } else if fit > segments {
        (segments, segments - 1)
    } else {
        (fit, fit - 1)
    }
}

/// The top of row `index` of the window, in pixels from the top.
pub fn row_top(index: usize, splits_height: u32, inline: bool) -> (y: i32)
    requires
        index * row_pitch(splits_height, inline) <= i32::MAX,
    ensures
        y == index * row_pitch(splits_height, inline),
{
    let lines: u64 = if inline {
        1
    } else {
        2
    };
    let pitch: u64 = splits_height as u64 * lines + 5;
    assert(pitch == row_pitch(splits_height, inline));
    if index == 0 {
        0
    } else {
        assert(index <= i32::MAX && pitch <= i32::MAX) by (nonlinear_arith)
            requires
                index * pitch <= i32::MAX,
                index >= 1,
                pitch >= 5,
        ;
        assert((index as u64) * pitch <= i32::MAX);
        ((index as u64) * pitch) as i32
    }
}

/// Sum of the first `k` widths of `widths`.
pub open spec fn width_sum(widths: Seq<u32>, k: int) -> int
    decreases k,
{
    if k <= 0 {
        0
    } else {
        width_sum(widths, k - 1) + widths[k - 1]
    }
}

/// The sum of widths does not go down as more are taken in.
pub proof fn lemma_width_sum_monotonic(widths: Seq<u32>, i: int, j: int)
    requires
        i <= j,
    ensures
        0 <= width_sum(widths, i) <= width_sum(widths, j),
    decreases j,
{
    if j > 0 {
        if i == j {
            lemma_width_sum_monotonic(widths, i - 1, j - 1);
        } else {
            lemma_width_sum_monotonic(widths, i, j - 1);
        }
    }
}

/// The offsets of glyphs of the given widths that stand side by side in an
/// atlas: entry `k` is where glyph `k` begins, and the last entry is where
/// the last glyph ends.
pub fn glyph_offsets(widths: &[u32]) -> (offsets: Vec<u32>)
    requires
        width_sum(widths@, widths@.len() as int) <= u32::MAX,
    ensures
        offsets@.len() == widths@.len() + 1,
        forall|k: int| 0 <= k < offsets@.len() ==> offsets@[k] == width_sum(widths@, k),
{
    let mut offsets: Vec<u32> = Vec::new();
    let mut sum: u32 = 0;
    offsets.push(0);
    let mut k: usize = 0;
    while k < widths.len()
        invariant
            k <= widths@.len(),
            offsets@.len() == k + 1,
            sum == width_sum(widths@, k as int),
            width_sum(widths@, widths@.len() as int) <= u32::MAX,
            forall|j: int| 0 <= j < offsets@.len() ==> offsets@[j] == width_sum(widths@, j),
        decreases widths@.len() - k,
    {
        proof {
            lemma_width_sum_monotonic(widths@, k + 1, widths@.len() as int);
        }
        sum = sum + widths[k];
        offsets.push(sum);
        k = k + 1;
    }
    offsets
}

/// How much of an image of extent `image` is cut off before the window of
/// extent `window` begins, so that the window shows its middle: half of
/// the excess, and nothing of an image that fits.
pub fn crop_offset(image: u32, window: u32) -> (cut: i32)
    ensures
        image > window ==> cut == (image - window) / 2,
        image <= window ==> cut == 0,
{
    if image > window {
        ((image - window) / 2) as i32
    } else {
        0
    }
}

} // verus!
