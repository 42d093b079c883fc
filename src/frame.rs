use vstd::prelude::*;

verus! {

/// `buf` holds `rows` in row-major order, top row first: pixel `x` of row `y`
/// stands at `y * width + x`.
pub open spec fn is_row_major(buf: Seq<u32>, rows: Seq<Seq<u32>>, width: nat) -> bool {
    &&& buf.len() == rows.len() * width
    &&& forall|y: int, x: int|
        0 <= y < rows.len() && 0 <= x < width ==> buf[y * width + x] == #[trigger] rows[y][x]
}

/// Every row of `rows` has `width` pixels.
pub open spec fn rows_have_width(rows: Seq<Seq<u32>>, width: nat) -> bool {
    forall|y: int| 0 <= y < rows.len() ==> (#[trigger] rows[y]).len() == width
}

/// The pixels of each row, as sequences.
pub open spec fn row_views(rows: Seq<Vec<u32>>) -> Seq<Seq<u32>> {
    rows.map_values(|r: Vec<u32>| r@)
}

/// Index of pixel `(x, y)` in a row-major buffer of `width * height` pixels,
/// or `None` where the pixel lies outside the buffer.
pub fn pixel_index(width: usize, height: usize, x: i32, y: i32) -> (r: Option<usize>)
    requires
        width * height <= usize::MAX,
    ensures
        r is Some <==> (0 <= x < width && 0 <= y < height),
        r matches Some(i) ==> i == y * width + x && i < width * height,
{
    if x < 0 || y < 0 {
        return None;
    }
    let xu = x as usize;
    let yu = y as usize;
    if xu >= width || yu >= height {
        return None;
    }
    proof {
        assert(yu * width + xu < width * height) by (nonlinear_arith)
            requires
                yu < height,
                xu < width,
        ;
    }
    Some(yu * width + xu)
}

/// Joins rendered rows, each `width` pixels long, into one row-major buffer
/// whose layout is that of rendering the rows one after another.
pub fn assemble_rows(rows: Vec<Vec<u32>>, width: usize) -> (buf: Vec<u32>)
    requires
        rows_have_width(row_views(rows@), width as nat),
        rows@.len() * width <= usize::MAX,
    ensures
        is_row_major(buf@, row_views(rows@), width as nat),
{
    let ghost views = row_views(rows@);
    let mut buf: Vec<u32> = Vec::new();
    let mut y: usize = 0;
    while y < rows.len()
        invariant
            views == row_views(rows@),
            rows_have_width(views, width as nat),
            rows@.len() * width <= usize::MAX,
            y <= rows@.len(),
            buf@.len() == y * width,
            forall|yy: int, x: int|
                0 <= yy < y && 0 <= x < width ==> buf@[yy * width + x] == #[trigger] views[yy][x],
        decreases rows@.len() - y,
    {
        let row = &rows[y];
        assert(row@ == views[y as int]);
        let mut x: usize = 0;
        while x < width
            invariant
                views == row_views(rows@),
                rows_have_width(views, width as nat),
                y < rows@.len(),
                row@ == views[y as int],
                x <= width,
                buf@.len() == y * width + x,
                forall|yy: int, xx: int|
                    (0 <= yy < y && 0 <= xx < width) || (yy == y && 0 <= xx < x) ==> buf@[yy
                        * width + xx] == #[trigger] views[yy][xx],
            decreases width - x,
        {
            let ghost before = buf@;
            buf.push(row[x]);
            proof {
                assert forall|yy: int, xx: int|
                    (0 <= yy < y && 0 <= xx < width) || (yy == y && 0 <= xx < x + 1) implies buf@[yy
                        * width + xx] == #[trigger] views[yy][xx] by {
                    if yy < y {
                        assert(yy * width + xx < (yy + 1) * width) by (nonlinear_arith)
                            requires
                                xx < width,
                        ;
                        assert((yy + 1) * width <= y * width) by (nonlinear_arith)
                            requires
                                yy < y,
                        ;
                        assert(buf@[yy * width + xx] == before[yy * width + xx]);
                    } else if xx < x {
                        assert(buf@[yy * width + xx] == before[yy * width + xx]);
                    }
                }
            }
            x = x + 1;
        }
        proof {
            assert((y + 1) * width == y * width + width) by (nonlinear_arith);
            assert((y + 1) * width <= rows@.len() * width) by (nonlinear_arith)
                requires
                    y < rows@.len(),
            ;
        }
        y = y + 1;
    }
    buf
}

/// Whatever order or worker produced them, two buffers that hold the same rows
/// in row-major order are identical.
pub proof fn lemma_frame_deterministic(
    a: Seq<u32>,
    b: Seq<u32>,
    rows: Seq<Seq<u32>>,
    width: nat,
)
    requires
        is_row_major(a, rows, width),
        is_row_major(b, rows, width),
    ensures
        a == b,
{
    assert forall|i: int| 0 <= i < a.len() implies a[i] == b[i] by {
        let y = i / width as int;
        let x = i % width as int;
        assert(width > 0) by {
            if width == 0 {
                assert(a.len() == 0) by (nonlinear_arith)
                    requires
                        a.len() == rows.len() * width,
                        width == 0,
                ;
            }
        }
        assert(i == y * width + x && 0 <= x < width) by (nonlinear_arith)
            requires
                width > 0,
                y == i / width as int,
                x == i % width as int,
        ;
        assert(y < rows.len()) by (nonlinear_arith)
            requires
                i == y * width + x,
                0 <= x,
                i < rows.len() * width,
                width > 0,
        ;
        assert(0 <= y) by (nonlinear_arith)
            requires
                i >= 0,
                width > 0,
                y == i / width as int,
        ;
        assert(a[y * width + x] == rows[y][x]);
        assert(b[y * width + x] == rows[y][x]);
    }
    assert(a =~= b);
}

} // verus!
