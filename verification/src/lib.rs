use vstd::prelude::*;
use vstd::arithmetic::div_mod::lemma_fundamental_div_mod_converse;

verus! {

/// The single error a conversion can report: the input grid is empty,
/// irregular, or holds a pixel without exactly three channel values.
#[derive(Clone, Copy, Debug, PartialEq, Eq, Structural)]
pub enum ConvertError {
    InvalidShape,
}

/// A packed RGBA byte buffer together with its declared dimensions.
pub struct RgbaImage {
    pub data: Vec<u8>,
    pub width: usize,
    pub height: usize,
}

impl RgbaImage {
    /// The buffer holds exactly four bytes for each of its pixels.
    pub open spec fn wf(self) -> bool {
        self.data@.len() == 4 * ((self.height as int) * (self.width as int))
    }
}

/// A grid is valid when it has at least one row, its first row holds at
/// least one pixel, every row has the length of the first, and every pixel
/// holds exactly three channel values (red, green, blue).
pub open spec fn valid_grid(g: Seq<Seq<Seq<u8>>>) -> bool {
    &&& g.len() >= 1
    &&& g[0].len() >= 1
    &&& forall|i: int| 0 <= i < g.len() ==> #[trigger] g[i].len() == g[0].len()
    &&& forall|i: int, j: int|
        0 <= i < g.len() && 0 <= j < g[0].len() ==> #[trigger] g[i][j].len() == 3
}

/// The byte at linear index `k` of the packed buffer of grid `g`: every
/// fourth byte is the opaque alpha value 255, and the rest are the red,
/// green and blue channels of pixel `(k / 4 / w, k / 4 % w)` in row-major
/// order, where `w` is the grid's width.
pub open spec fn rgba_byte(g: Seq<Seq<Seq<u8>>>, k: int) -> u8 {
    if k % 4 == 3 {
        255u8
    } else {
        g[(k / 4) / g[0].len() as int][(k / 4) % g[0].len() as int][k % 4]
    }
}

/// The packed row-major RGBA buffer of grid `g`: four bytes per pixel,
/// row 0 first, each row left to right.
pub open spec fn rgba_buffer(g: Seq<Seq<Seq<u8>>>) -> Seq<u8> {
    Seq::new(4 * (g.len() * g[0].len()), |k: int| rgba_byte(g, k))
}

/// For a valid grid, the four bytes that the packed buffer holds for pixel
/// `(i, j)` are exactly that pixel's red, green and blue channels followed
/// by the opaque alpha value 255.
pub proof fn lemma_rgba_buffer_pixel(g: Seq<Seq<Seq<u8>>>, i: int, j: int)
    requires
        valid_grid(g),
        0 <= i < g.len(),
        0 <= j < g[0].len(),
    ensures
        4 * (i * g[0].len() + j) + 3 < rgba_buffer(g).len(),
        rgba_buffer(g)[4 * (i * g[0].len() + j)] == g[i][j][0],
        rgba_buffer(g)[4 * (i * g[0].len() + j) + 1] == g[i][j][1],
        rgba_buffer(g)[4 * (i * g[0].len() + j) + 2] == g[i][j][2],
        rgba_buffer(g)[4 * (i * g[0].len() + j) + 3] == 255,
{
    let w = g[0].len() as int;
    let p = i * w + j;
    assert(p < g.len() * w) by (nonlinear_arith)
        requires
            0 <= i < g.len(),
            0 <= j < w,
            p == i * w + j,
    ;
    assert(0 <= p) by (nonlinear_arith)
        requires
            0 <= i,
            0 <= j,
            0 <= w,
            p == i * w + j,
    ;
    lemma_fundamental_div_mod_converse(4 * p, 4, p, 0);
    lemma_fundamental_div_mod_converse(4 * p + 1, 4, p, 1);
    lemma_fundamental_div_mod_converse(4 * p + 2, 4, p, 2);
    lemma_fundamental_div_mod_converse(4 * p + 3, 4, p, 3);
    lemma_fundamental_div_mod_converse(p, w, i, j);
}

/// Two conversions of the same grid yield byte-identical buffers: the
/// packed buffer is a function of the grid alone.
pub proof fn lemma_convert_deterministic(g: Seq<Seq<Seq<u8>>>, b1: Seq<u8>, b2: Seq<u8>)
    requires
        b1 == rgba_buffer(g),
        b2 == rgba_buffer(g),
    ensures
        b1 == b2,
{
}

/// Decides whether `grid` is a valid pixel grid: at least one row, a
/// non-empty first row, every row of the same length, and three channel
/// values in every pixel.
pub fn grid_is_valid(grid: &Vec<Vec<Vec<u8>>>) -> (ok: bool)
    ensures
        ok == valid_grid(grid.deep_view()),
{
    let ghost g = grid.deep_view();
    if grid.len() == 0 {
        return false;
    }
    let height = grid.len();
    let row0 = &grid[0];
    let width = row0.len();
    assert(g[0].len() == width);
    if width == 0 {
        return false;
    }
    for i in 0..height
        invariant
            g == grid.deep_view(),
            height == grid@.len(),
            height == g.len(),
            width == g[0].len(),
            width >= 1,
            forall|r: int| 0 <= r < i ==> #[trigger] g[r].len() == g[0].len(),
            forall|r: int, c: int|
                0 <= r < i && 0 <= c < g[0].len() ==> #[trigger] g[r][c].len() == 3,
    {
        let row = &grid[i];
        assert(g[i as int].len() == row@.len());
        if row.len() != width {
            return false;
        }
        for j in 0..width
            invariant
                g == grid.deep_view(),
                height == grid@.len(),
                height == g.len(),
                width == g[0].len(),
                width >= 1,
                i < height,
                *row == grid@[i as int],
                row@.len() == width,
                forall|c: int| 0 <= c < j ==> #[trigger] g[i as int][c].len() == 3,
        {
            let px = &row[j];
            assert(g[i as int][j as int].len() == px@.len());
            if px.len() != 3 {
                return false;
            }
        }
    }
    true
}

/// Converts a rectangular grid of red-green-blue pixel triples into a
/// packed row-major RGBA byte buffer whose alpha channel is fixed at 255,
/// together with the grid's width and height. A grid that is empty,
/// irregular, or holds a pixel without exactly three channels is rejected
/// whole with `InvalidShape`; a valid grid is converted in full.
pub fn convert(grid: &Vec<Vec<Vec<u8>>>) -> (out: Result<RgbaImage, ConvertError>)
    ensures
        out is Ok <==> valid_grid(grid.deep_view()),
        match out {
            Ok(img) => {
                &&& img.height == grid.deep_view().len()
                &&& img.width == grid.deep_view()[0].len()
                &&& img.data@.len() == 4 * (grid.deep_view().len() * grid.deep_view()[0].len())
                &&& img.data@ == rgba_buffer(grid.deep_view())
                &&& img.wf()
            },
            Err(e) => e == ConvertError::InvalidShape,
        },
{
    let ghost g = grid.deep_view();
    if !grid_is_valid(grid) {
        return Err(ConvertError::InvalidShape);
    }
    let height = grid.len();
    let row0 = &grid[0];
    let width = row0.len();
    assert(g.len() == height);
    assert(g[0].len() == width);
    let mut data: Vec<u8> = Vec::new();
    assert(data@.len() == 4 * (0 * (width as int)));
    for i in 0..height
        invariant
            g == grid.deep_view(),
            valid_grid(g),
            height == grid@.len(),
            height == g.len(),
            width == g[0].len(),
            data@.len() == 4 * ((i as int) * (width as int)),
            forall|k: int| 0 <= k < data@.len() ==> data@[k] == #[trigger] rgba_byte(g, k),
    {
        for j in 0..width
            invariant
                g == grid.deep_view(),
                valid_grid(g),
                height == grid@.len(),
                height == g.len(),
                width == g[0].len(),
                i < height,
                data@.len() == 4 * ((i as int) * (width as int) + (j as int)),
                forall|k: int| 0 <= k < data@.len() ==> data@[k] == #[trigger] rgba_byte(g, k),
        {
            let row = &grid[i];
            assert(g[i as int].len() == row@.len());
            let px = &row[j];
            assert(g[i as int][j as int].len() == px@.len());
            assert(g[i as int][j as int] =~= px@);
            let ghost w = width as int;
            let ghost p = (i as int) * w + (j as int);
            data.push(px[0]);
            data.push(px[1]);
            data.push(px[2]);
            data.push(255u8);
            proof {
                lemma_fundamental_div_mod_converse(4 * p, 4, p, 0);
                lemma_fundamental_div_mod_converse(4 * p + 1, 4, p, 1);
                lemma_fundamental_div_mod_converse(4 * p + 2, 4, p, 2);
                lemma_fundamental_div_mod_converse(4 * p + 3, 4, p, 3);
                lemma_fundamental_div_mod_converse(p, w, i as int, j as int);
            }
        }
        proof {
            assert(((i as int) + 1) * (width as int)
                == (i as int) * (width as int) + (width as int)) by (nonlinear_arith);
        }
    }
    assert(data@ =~= rgba_buffer(g));
    Ok(RgbaImage { data, width, height })
}

} // verus!
