//! The table layout: a pure function from the active sheet and the current
//! selection to a render description — header cells, body rows with their
//! display heights and spacing, per-column width constraints, and the
//! highlighted row.

use vstd::prelude::*;
use vstd::string::StrSliceExecFns;

use crate::app::App;

verus! {

/// Minimum width, in terminal cells, that every table column is granted.
pub const MIN_COL_WIDTH: usize = 10;

/// Number of line-break characters in a cell's text.
pub open spec fn newline_count(s: Seq<char>) -> nat
    decreases s.len(),
{
    if s.len() == 0 {
        0
    } else {
        newline_count(s.drop_last()) + (if s.last() == '\n' {
            1nat
        } else {
            0nat
        })
    }
}

/// Greatest line-break count over the cells of a row (zero for a row with
/// no cells).
pub open spec fn max_newlines(row: Seq<Seq<char>>) -> nat
    decreases row.len(),
{
    if row.len() == 0 {
        0
    } else {
        let rest = max_newlines(row.drop_last());
        let last = newline_count(row.last());
        if last > rest {
            last
        } else {
            rest
        }
    }
}

/// Display height of a body row: one line, plus one more for each embedded
/// line break of its tallest cell; at least 1 for a row with no cells.
pub open spec fn spec_row_height(row: Seq<Seq<char>>) -> nat {
    1 + max_newlines(row)
}

/// Every body row's tallest cell leaves its display height representable.
pub open spec fn heights_fit(g: Seq<Seq<Seq<char>>>) -> bool {
    forall|i: int| 1 <= i < g.len() ==> max_newlines(g[i]) < usize::MAX
}

/// One body row as displayed: its cells (one per table column), its display
/// height, and the blank spacing below it.
pub struct RenderRow {
    pub cells: Vec<String>,
    pub height: usize,
    pub bottom_margin: usize,
}

/// How a displayed row relates to the grid row it renders: one display cell
/// per table column, missing cells filled in as empty text, the height
/// computed over all of the grid row's cells, and one row of spacing below.
pub open spec fn row_rendered(r: RenderRow, src: Seq<Seq<char>>, ncols: nat) -> bool {
    &&& r.height as nat == spec_row_height(src)
    &&& r.bottom_margin == 1
    &&& r.cells.deep_view().len() == ncols
    &&& forall|j: int|
        0 <= j < ncols ==> r.cells.deep_view()[j] == (if j < src.len() {
            src[j]
        } else {
            Seq::<char>::empty()
        })
}

/// Everything one frame of the table needs: the header row, the body rows
/// with their heights, one minimum-width constraint per column, and which
/// body row (if any) is highlighted. Rebuilt on every frame, never stored.
pub struct RenderDescriptor {
    pub header: Vec<String>,
    pub header_height: usize,
    pub header_bottom_margin: usize,
    pub widths: Vec<usize>,
    pub rows: Vec<RenderRow>,
    pub highlighted: Option<usize>,
}

/// Number of line-break characters in a string.
fn count_newlines(s: &str) -> (c: usize)
    ensures
        c as nat == newline_count(s@),
{
    let len = s.unicode_len();
    let mut c: usize = 0;
    let mut i: usize = 0;
    while i < len
        invariant
            i <= len,
            len as nat == s@.len(),
            c <= i,
            c as nat == newline_count(s@.subrange(0, i as int)),
        decreases len - i,
    {
        let ch = s.get_char(i);
        proof {
            assert(s@.subrange(0, i + 1).drop_last() =~= s@.subrange(0, i as int));
            assert(s@.subrange(0, i + 1).last() == s@[i as int]);
        }
        if ch == '\n' {
            c += 1;
        }
        i += 1;
    }
    proof {
        assert(s@.subrange(0, len as int) =~= s@);
    }
    c
}

/// Display height of a body row: one line plus the greatest line-break
/// count over its cells.
pub fn row_height(row: &Vec<String>) -> (h: usize)
    requires
        max_newlines(row.deep_view()) < usize::MAX,
    ensures
        h as nat == spec_row_height(row.deep_view()),
{
    let mut m: usize = 0;
    let mut i: usize = 0;
    while i < row.len()
        invariant
            i <= row@.len(),
            m as nat == max_newlines(row.deep_view().subrange(0, i as int)),
        decreases row@.len() - i,
    {
        let c = count_newlines(row[i].as_str());
        proof {
            assert(row.deep_view().subrange(0, i + 1).drop_last() =~= row.deep_view().subrange(
                0,
                i as int,
            ));
            assert(row.deep_view().subrange(0, i + 1).last() == row.deep_view()[i as int]);
            assert(row.deep_view()[i as int] == row@[i as int]@);
        }
        if c > m {
            m = c;
        }
        i += 1;
    }
    proof {
        assert(row.deep_view().subrange(0, row.deep_view().len() as int) =~= row.deep_view());
    }
    m + 1
}

/// Lays out one frame of the table for the active sheet: the header is row 0
/// of its grid; the body rows are the remaining rows in their original
/// order, each padded with empty text to the header's column count and
/// given its computed display height; each column gets the minimum width;
/// the row at the current selection is the highlighted one. A sheet must be
/// active; its grid may be empty (an empty table) or ragged.
pub fn ui(app: &App) -> (d: RenderDescriptor)
    requires
        app.current is Some,
        heights_fit(app.current->Some_0.data.deep_view()),
    ensures
        d.highlighted == app.state,
        d.header_height == 1,
        d.header_bottom_margin == 1,
        ({
            let g = app.current->Some_0.data.deep_view();
            if g.len() == 0 {
                d.header@.len() == 0 && d.rows@.len() == 0 && d.widths@.len() == 0
            } else {
                &&& d.header.deep_view() == g[0]
                &&& d.widths@.len() == g[0].len()
                &&& forall|j: int| 0 <= j < d.widths@.len() ==> d.widths@[j] == MIN_COL_WIDTH
                &&& d.rows@.len() == g.len() - 1
                &&& forall|i: int|
                    0 <= i < d.rows@.len() ==> row_rendered(d.rows@[i], g[i + 1], g[0].len())
            }
        }),
{
    let sheet = match &app.current {
        Some(s) => s,
        None => vstd::pervasive::unreached(),
    };
    let ghost g: Seq<Seq<Seq<char>>> = sheet.data.deep_view();
    let nrows = sheet.data.len();
    if nrows == 0 {
        return RenderDescriptor {
            header: Vec::new(),
            header_height: 1,
            header_bottom_margin: 1,
            widths: Vec::new(),
            rows: Vec::new(),
            highlighted: app.state,
        };
    }
    let header_src = &sheet.data[0];
    let ncols = header_src.len();
    proof {
        assert(g[0] == sheet.data@[0].deep_view());
    }

    let mut header: Vec<String> = Vec::new();
    let mut j: usize = 0;
    while j < ncols
        invariant
            j <= ncols,
            ncols as nat == g[0].len(),
            g == sheet.data.deep_view(),
            g.len() > 0,
            header_src.deep_view() == g[0],
            header.deep_view().len() == j,
            forall|x: int| 0 <= x < j ==> header.deep_view()[x] == g[0][x],
        decreases ncols - j,
    {
        let ghost hv = header.deep_view();
        header.push(header_src[j].clone());
        proof {
            assert(header.deep_view() =~= hv.push(g[0][j as int]));
        }
        j += 1;
    }
    proof {
        assert(header.deep_view() =~= g[0]);
    }

    let mut widths: Vec<usize> = Vec::new();
    let mut j: usize = 0;
    while j < ncols
        invariant
            j <= ncols,
            widths@.len() == j,
            forall|x: int| 0 <= x < j ==> widths@[x] == MIN_COL_WIDTH,
        decreases ncols - j,
    {
        widths.push(MIN_COL_WIDTH);
        j += 1;
    }

    let mut rows: Vec<RenderRow> = Vec::new();
    let mut i: usize = 1;
    while i < nrows
        invariant
            1 <= i <= nrows,
            nrows as nat == g.len(),
            ncols as nat == g[0].len(),
            g == sheet.data.deep_view(),
            heights_fit(g),
            rows@.len() == i - 1,
            forall|x: int| 0 <= x < i - 1 ==> row_rendered(rows@[x], g[x + 1], g[0].len()),
        decreases nrows - i,
    {
        let src = &sheet.data[i];
        proof {
            assert(src.deep_view() == g[i as int]);
        }
        let h = row_height(src);
        let src_len = src.len();
        let mut cells: Vec<String> = Vec::new();
        let mut j: usize = 0;
        while j < ncols
            invariant
                j <= ncols,
                src_len as nat == src.deep_view().len(),
                cells.deep_view().len() == j,
                forall|x: int|
                    0 <= x < j ==> cells.deep_view()[x] == (if x < src.deep_view().len() {
                        src.deep_view()[x]
                    } else {
                        Seq::<char>::empty()
                    }),
            decreases ncols - j,
        {
            let ghost cv = cells.deep_view();
            if j < src_len {
                cells.push(src[j].clone());
            } else {
                cells.push(String::new());
            }
            proof {
                assert(cells.deep_view() =~= cv.push(
                    if (j as int) < src.deep_view().len() {
                        src.deep_view()[j as int]
                    } else {
                        Seq::<char>::empty()
                    },
                ));
            }
            j += 1;
        }
        rows.push(RenderRow { cells, height: h, bottom_margin: 1 });
        i += 1;
    }

    RenderDescriptor {
        header,
        header_height: 1,
        header_bottom_margin: 1,
        widths,
        rows,
        highlighted: app.state,
    }
}

} // verus!
