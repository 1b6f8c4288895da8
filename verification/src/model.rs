use vstd::prelude::*;

use crate::color::ColorCode;
use crate::screen::ScreenChar;
use crate::ASCII_PRINTABLE_MAX;
use crate::ASCII_PRINTABLE_MIN;
use crate::BLANK_CHAR;
use crate::BUFFER_HEIGHT;
use crate::BUFFER_WIDTH;
use crate::NEWLINE;

verus! {

/// A blank cell: a space in the given attribute.
pub open spec fn blank_cell(attr: ColorCode) -> ScreenChar {
    ScreenChar { ascii_char: BLANK_CHAR, color_code: attr }
}

/// A full row of blank cells in the given attribute.
pub open spec fn blank_row(attr: ColorCode) -> Seq<ScreenChar> {
    Seq::new(BUFFER_WIDTH as nat, |col: int| blank_cell(attr))
}

/// A grid of nothing but blank cells in the given attribute.
pub open spec fn blank_grid(attr: ColorCode) -> Seq<Seq<ScreenChar>> {
    Seq::new(BUFFER_HEIGHT as nat, |row: int| blank_row(attr))
}

/// A grid of the fixed height whose rows all have the fixed width.
pub open spec fn grid_dims(grid: Seq<Seq<ScreenChar>>) -> bool {
    &&& grid.len() == BUFFER_HEIGHT
    &&& forall|row: int| 0 <= row < BUFFER_HEIGHT ==> grid[row].len() == BUFFER_WIDTH
}

/// The cell that writing byte `b` in attribute `attr` places on the grid.
pub open spec fn glyph(b: u8, attr: ColorCode) -> ScreenChar {
    ScreenChar { ascii_char: b, color_code: attr }
}

/// The grid after one scroll: every row moves up one place, the top row is
/// discarded, and the bottom row becomes blank in the given attribute.
pub open spec fn scrolled(grid: Seq<Seq<ScreenChar>>, attr: ColorCode) -> Seq<Seq<ScreenChar>> {
    Seq::new(
        BUFFER_HEIGHT as nat,
        |row: int|
            if row < BUFFER_HEIGHT - 1 {
                grid[row + 1]
            } else {
                blank_row(attr)
            },
    )
}

/// The grid after placing `cell` at the given column of the bottom row.
pub open spec fn written(grid: Seq<Seq<ScreenChar>>, col: int, cell: ScreenChar) -> Seq<
    Seq<ScreenChar>,
> {
    grid.update(BUFFER_HEIGHT - 1, grid[BUFFER_HEIGHT - 1].update(col, cell))
}

/// Grid and cursor column after emitting one byte: a newline scrolls and
/// resets the column; any other byte scrolls first if the row is full, then
/// lands at the cursor on the bottom row and advances the cursor.
pub open spec fn wb_spec(grid: Seq<Seq<ScreenChar>>, col: int, attr: ColorCode, b: u8) -> (
    Seq<Seq<ScreenChar>>,
    int,
) {
    if b == NEWLINE {
        (scrolled(grid, attr), 0)
    } else if col >= BUFFER_WIDTH {
        (written(scrolled(grid, attr), 0, glyph(b, attr)), 1)
    } else {
        (written(grid, col, glyph(b, attr)), col + 1)
    }
}

/// A byte the console displays as itself.
pub open spec fn is_printable(b: u8) -> bool {
    ASCII_PRINTABLE_MIN <= b && b <= ASCII_PRINTABLE_MAX
}

/// The byte actually emitted for an input byte: printable bytes and newlines
/// pass through, every other byte is replaced by `0x7e`.
pub open spec fn normalize_byte(b: u8) -> u8 {
    if is_printable(b) || b == NEWLINE {
        b
    } else {
        ASCII_PRINTABLE_MAX
    }
}

/// Grid and cursor column after emitting a whole byte sequence, each byte
/// first normalized, then applied as one `wb_spec` step.
pub open spec fn ws_spec(grid: Seq<Seq<ScreenChar>>, col: int, attr: ColorCode, s: Seq<u8>) -> (
    Seq<Seq<ScreenChar>>,
    int,
)
    decreases s.len(),
{
    if s.len() <= 0 {
        (grid, col)
    } else {
        let stepped = wb_spec(grid, col, attr, normalize_byte(s[0]));
        ws_spec(stepped.0, stepped.1, attr, s.drop_first())
    }
}

/// Emitting a sequence and then one more byte is one step past the sequence.
pub proof fn lemma_ws_spec_snoc(
    grid: Seq<Seq<ScreenChar>>,
    col: int,
    attr: ColorCode,
    s: Seq<u8>,
    b: u8,
)
    ensures
        ws_spec(grid, col, attr, s.push(b)) == wb_spec(
            ws_spec(grid, col, attr, s).0,
            ws_spec(grid, col, attr, s).1,
            attr,
            normalize_byte(b),
        ),
    decreases s.len(),
{
    let full = s.push(b);
    if s.len() == 0 {
        assert(full[0] == b);
        assert(full.drop_first() =~= Seq::<u8>::empty());
        let stepped = wb_spec(grid, col, attr, normalize_byte(b));
        assert(ws_spec(grid, col, attr, full) == ws_spec(
            stepped.0,
            stepped.1,
            attr,
            full.drop_first(),
        ));
        assert(ws_spec(stepped.0, stepped.1, attr, full.drop_first()) == stepped);
        assert(ws_spec(grid, col, attr, s) == (grid, col));
    } else {
        assert(full[0] == s[0]);
        assert(full.drop_first() =~= s.drop_first().push(b));
        let stepped = wb_spec(grid, col, attr, normalize_byte(s[0]));
        assert(ws_spec(grid, col, attr, full) == ws_spec(
            stepped.0,
            stepped.1,
            attr,
            full.drop_first(),
        ));
        lemma_ws_spec_snoc(stepped.0, stepped.1, attr, s.drop_first(), b);
        assert(ws_spec(grid, col, attr, s) == ws_spec(stepped.0, stepped.1, attr, s.drop_first()));
    }
}

/// A sequence of `n` newline bytes.
pub open spec fn newlines(n: nat) -> Seq<u8> {
    Seq::new(n, |i: int| NEWLINE)
}

/// The grid after `k` scrolls in a row, all in the same attribute.
pub open spec fn scrolled_n(grid: Seq<Seq<ScreenChar>>, attr: ColorCode, k: nat) -> Seq<
    Seq<ScreenChar>,
>
    decreases k,
{
    if k == 0 {
        grid
    } else {
        scrolled(scrolled_n(grid, attr, (k - 1) as nat), attr)
    }
}

/// Law: writing a byte sequence renders exactly as writing its normalized
/// form, in which every byte that is neither printable nor a newline has
/// already been replaced by `0x7e`.
pub proof fn lemma_ws_spec_normalized(
    grid: Seq<Seq<ScreenChar>>,
    col: int,
    attr: ColorCode,
    s: Seq<u8>,
)
    ensures
        ws_spec(grid, col, attr, s.map_values(|b: u8| normalize_byte(b))) == ws_spec(
            grid,
            col,
            attr,
            s,
        ),
    decreases s.len(),
{
    let t = s.map_values(|b: u8| normalize_byte(b));
    if s.len() == 0 {
    } else {
        assert(t[0] == normalize_byte(s[0]));
        assert(normalize_byte(t[0]) == normalize_byte(s[0]));
        assert(t.drop_first() =~= s.drop_first().map_values(|b: u8| normalize_byte(b)));
        let stepped = wb_spec(grid, col, attr, normalize_byte(s[0]));
        lemma_ws_spec_normalized(stepped.0, stepped.1, attr, s.drop_first());
    }
}

/// Law: substitution. A byte that is neither printable nor a newline renders
/// exactly as the substitute byte `0x7e` would in its position.
pub proof fn lemma_unprintable_substituted(
    grid: Seq<Seq<ScreenChar>>,
    col: int,
    attr: ColorCode,
    s: Seq<u8>,
    i: int,
)
    requires
        0 <= i < s.len(),
        !is_printable(s[i]),
        s[i] != NEWLINE,
    ensures
        ws_spec(grid, col, attr, s) == ws_spec(grid, col, attr, s.update(i, ASCII_PRINTABLE_MAX)),
{
    lemma_ws_spec_normalized(grid, col, attr, s);
    lemma_ws_spec_normalized(grid, col, attr, s.update(i, ASCII_PRINTABLE_MAX));
    assert(s.update(i, ASCII_PRINTABLE_MAX).map_values(|b: u8| normalize_byte(b)) =~= s.map_values(
        |b: u8| normalize_byte(b),
    ));
}

/// One row of `k` consecutive scrolls: the row `k` places further down if it
/// is still on the grid, blank otherwise.
proof fn lemma_scrolled_n_row(grid: Seq<Seq<ScreenChar>>, attr: ColorCode, k: nat, row: int)
    requires
        1 <= k,
        0 <= row < BUFFER_HEIGHT,
    ensures
        scrolled_n(grid, attr, k)[row] == if row + k < BUFFER_HEIGHT {
            grid[row + k]
        } else {
            blank_row(attr)
        },
    decreases k,
{
    if k == 1 {
    } else {
        if row < BUFFER_HEIGHT - 1 {
            lemma_scrolled_n_row(grid, attr, (k - 1) as nat, row + 1);
        }
        assert(scrolled_n(grid, attr, k) == scrolled(scrolled_n(grid, attr, (k - 1) as nat), attr));
    }
}

/// Scrolling at least `BUFFER_HEIGHT` times blanks the whole grid.
proof fn lemma_scrolled_n_blank(grid: Seq<Seq<ScreenChar>>, attr: ColorCode, k: nat)
    requires
        k >= BUFFER_HEIGHT,
    ensures
        scrolled_n(grid, attr, k) == blank_grid(attr),
{
    assert forall|row: int| 0 <= row < BUFFER_HEIGHT implies scrolled_n(grid, attr, k)[row]
        == blank_row(attr) by {
        lemma_scrolled_n_row(grid, attr, k, row);
    }
    assert(scrolled_n(grid, attr, k) =~= blank_grid(attr));
}

/// Scrolling once and then `k - 1` times is scrolling `k` times.
proof fn lemma_scrolled_n_shift(grid: Seq<Seq<ScreenChar>>, attr: ColorCode, k: nat)
    requires
        k >= 1,
    ensures
        scrolled_n(scrolled(grid, attr), attr, (k - 1) as nat) == scrolled_n(grid, attr, k),
    decreases k,
{
    if k == 1 {
        assert(scrolled_n(scrolled(grid, attr), attr, 0) == scrolled(grid, attr));
        assert(scrolled_n(grid, attr, 1) == scrolled(scrolled_n(grid, attr, 0), attr));
    } else {
        lemma_scrolled_n_shift(grid, attr, (k - 1) as nat);
        assert(scrolled_n(scrolled(grid, attr), attr, (k - 1) as nat) == scrolled(
            scrolled_n(scrolled(grid, attr), attr, (k - 2) as nat),
            attr,
        ));
        assert(scrolled_n(grid, attr, k) == scrolled(scrolled_n(grid, attr, (k - 1) as nat), attr));
    }
}

/// Writing `n >= 1` newlines scrolls `n` times and homes the cursor.
proof fn lemma_ws_spec_newlines(grid: Seq<Seq<ScreenChar>>, col: int, attr: ColorCode, n: nat)
    requires
        n >= 1,
    ensures
        ws_spec(grid, col, attr, newlines(n)).0 == scrolled_n(grid, attr, n),
        ws_spec(grid, col, attr, newlines(n)).1 == 0,
    decreases n,
{
    assert(newlines(n)[0] == NEWLINE);
    assert(normalize_byte(NEWLINE) == NEWLINE);
    assert(newlines(n).drop_first() =~= newlines((n - 1) as nat));
    if n == 1 {
        assert(ws_spec(scrolled(grid, attr), 0, attr, newlines(0)) == (scrolled(grid, attr), 0int));
        assert(scrolled_n(grid, attr, 1) == scrolled(scrolled_n(grid, attr, 0), attr));
    } else {
        lemma_ws_spec_newlines(scrolled(grid, attr), 0, attr, (n - 1) as nat);
        lemma_scrolled_n_shift(grid, attr, n);
    }
}

/// Law: scroll idempotence. Writing at least `BUFFER_HEIGHT` newlines leaves
/// every row blank in the active attribute and the cursor at column 0,
/// whatever the grid held before; in particular one newline beyond the height
/// produces the same blank grid, since scrolling blank rows changes nothing.
pub proof fn lemma_scroll_idempotence(grid: Seq<Seq<ScreenChar>>, col: int, attr: ColorCode, n: nat)
    requires
        n >= BUFFER_HEIGHT,
    ensures
        ws_spec(grid, col, attr, newlines(n)).0 == blank_grid(attr),
        ws_spec(grid, col, attr, newlines(n)).1 == 0,
{
    lemma_ws_spec_newlines(grid, col, attr, n);
    lemma_scrolled_n_blank(grid, attr, n);
}

/// Law: scrolling an all-blank grid leaves its contents unchanged.
pub proof fn lemma_scrolled_blank_grid(attr: ColorCode)
    ensures
        scrolled(blank_grid(attr), attr) == blank_grid(attr),
{
    assert(scrolled(blank_grid(attr), attr) =~= blank_grid(attr));
}

/// The bottom row after a printable run lands on `orig`: the run's glyphs
/// from column `col` on, the previous cells everywhere else.
pub open spec fn run_row(orig: Seq<ScreenChar>, col: int, attr: ColorCode, s: Seq<u8>) -> Seq<
    ScreenChar,
> {
    Seq::new(
        BUFFER_WIDTH as nat,
        |c: int|
            if col <= c && c < col + s.len() {
                glyph(s[c - col], attr)
            } else {
                orig[c]
            },
    )
}

/// Law: color isolation. A printable run that fits in the bottom row lands at
/// the cursor, each glyph carrying the active attribute; every cell outside
/// the run, and in particular every attribute already on screen, stays
/// exactly as it was.
pub proof fn lemma_color_isolation(grid: Seq<Seq<ScreenChar>>, col: int, attr: ColorCode, s: Seq<u8>)
    requires
        grid_dims(grid),
        0 <= col,
        col + s.len() <= BUFFER_WIDTH,
        forall|i: int| 0 <= i < s.len() ==> is_printable(#[trigger] s[i]),
    ensures
        ws_spec(grid, col, attr, s).1 == col + s.len(),
        grid_dims(ws_spec(grid, col, attr, s).0),
        forall|r: int|
            0 <= r < BUFFER_HEIGHT - 1 ==> ws_spec(grid, col, attr, s).0[r] == grid[r],
        ws_spec(grid, col, attr, s).0[BUFFER_HEIGHT - 1] == run_row(
            grid[BUFFER_HEIGHT - 1],
            col,
            attr,
            s,
        ),
    decreases s.len(),
{
    let last: int = BUFFER_HEIGHT - 1;
    let result = ws_spec(grid, col, attr, s);
    if s.len() == 0 {
        assert(grid[last] =~= run_row(grid[last], col, attr, s));
    } else {
        assert(is_printable(s[0]));
        assert(normalize_byte(s[0]) == s[0]);
        assert(s[0] != NEWLINE);
        let cell = glyph(s[0], attr);
        let stepped_grid = written(grid, col, cell);
        assert(wb_spec(grid, col, attr, s[0]) == (stepped_grid, col + 1));
        assert(grid_dims(stepped_grid));
        assert forall|i: int| 0 <= i < s.drop_first().len() implies is_printable(
            #[trigger] s.drop_first()[i],
        ) by {
            assert(s.drop_first()[i] == s[i + 1]);
        }
        lemma_color_isolation(stepped_grid, col + 1, attr, s.drop_first());
        let rest = ws_spec(stepped_grid, col + 1, attr, s.drop_first());
        assert(result == rest);
        assert forall|r: int| 0 <= r < last implies result.0[r] == grid[r] by {
            assert(result.0[r] == stepped_grid[r]);
            assert(stepped_grid[r] == grid[r]);
        }
        let target = run_row(grid[last], col, attr, s);
        let intermediate = run_row(stepped_grid[last], col + 1, attr, s.drop_first());
        assert(result.0[last] == intermediate);
        assert forall|c: int| 0 <= c < BUFFER_WIDTH implies intermediate[c] == target[c] by {
            if c == col {
                assert(stepped_grid[last][c] == cell);
            } else if col < c && c < col + s.len() {
                assert(s.drop_first()[c - col - 1] == s[c - col]);
            } else {
                assert(stepped_grid[last][c] == grid[last][c]);
            }
        }
        assert(result.0[last] =~= target);
    }
}

/// Law: wrap boundary. From column 0, a full row of printable bytes fills the
/// bottom row exactly and leaves the cursor at the width; the next printable
/// byte scrolls first — pushing that full row up one place — and lands at
/// column 0 of the freshly blanked bottom row, cursor at 1.
pub proof fn lemma_wrap_boundary(grid: Seq<Seq<ScreenChar>>, attr: ColorCode, s: Seq<u8>, b: u8)
    requires
        grid_dims(grid),
        s.len() == BUFFER_WIDTH,
        forall|i: int| 0 <= i < s.len() ==> is_printable(#[trigger] s[i]),
        is_printable(b),
    ensures
        ws_spec(grid, 0, attr, s).1 == BUFFER_WIDTH,
        ws_spec(grid, 0, attr, s).0[BUFFER_HEIGHT - 1] == run_row(
            grid[BUFFER_HEIGHT - 1],
            0,
            attr,
            s,
        ),
        ws_spec(grid, 0, attr, s.push(b)).1 == 1,
        ws_spec(grid, 0, attr, s.push(b)).0[BUFFER_HEIGHT - 1][0] == glyph(b, attr),
        ws_spec(grid, 0, attr, s.push(b)).0[BUFFER_HEIGHT - 2] == run_row(
            grid[BUFFER_HEIGHT - 1],
            0,
            attr,
            s,
        ),
{
    let last: int = BUFFER_HEIGHT - 1;
    lemma_color_isolation(grid, 0, attr, s);
    lemma_ws_spec_snoc(grid, 0, attr, s, b);
    let after = ws_spec(grid, 0, attr, s);
    assert(normalize_byte(b) == b);
    assert(b != NEWLINE);
    let shifted = scrolled(after.0, attr);
    let wrapped = wb_spec(after.0, after.1, attr, b);
    assert(wrapped.0 == written(shifted, 0, glyph(b, attr)));
    assert(wrapped.0[last] == shifted[last].update(0, glyph(b, attr)));
    assert(shifted[last] == blank_row(attr));
    assert(wrapped.0[last][0] == glyph(b, attr));
    assert(wrapped.0[last - 1] == shifted[last - 1]);
    assert(shifted[last - 1] == after.0[last]);
}

} // verus!
