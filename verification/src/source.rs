use vstd::prelude::*;

verus! {

/// Where an amplitude map of `width` cells begins along an axis of `grid`
/// cells when it is centred there and then moved by `shift` cells. The
/// halves are taken toward zero.
pub open spec fn spec_embed_offset(shift: int, grid: int, width: int) -> int {
    let slack = grid - width;
    shift + if slack >= 0 {
        slack / 2
    } else {
        -((-slack) / 2)
    }
}

/// Where an amplitude map of `width` cells begins along an axis of `grid`
/// cells when it is centred there and then moved by `shift` cells.
pub fn embed_offset(shift: i32, grid: u32, width: u32) -> (r: i64)
    ensures
        r == spec_embed_offset(shift as int, grid as int, width as int),
{
    let slack: i64 = grid as i64 - width as i64;
    let half: i64 = if slack >= 0 {
        slack / 2
    } else {
        -((-slack) / 2)
    };
    shift as i64 + half
}

/// The cell of the source plane that takes the value of cell `(x, y)` of an
/// amplitude map placed at the given offsets, if it falls strictly inside
/// the plane's first row and column and within its extent.
pub open spec fn spec_embed_target(
    x: int,
    y: int,
    offset_x: int,
    offset_y: int,
    grid_x: int,
    grid_y: int,
) -> Option<(int, int)> {
    if 0 < x + offset_x < grid_x && 0 < y + offset_y < grid_y {
        Some((x + offset_x, y + offset_y))
    } else {
        None
    }
}

/// The cell of the source plane that takes the value of cell `(x, y)` of an
/// amplitude map placed at the given offsets: cells that fall on the first
/// row or column of the plane, or outside it, are dropped.
pub fn embed_target(x: u32, y: u32, offset_x: i64, offset_y: i64, grid_x: u32, grid_y: u32) -> (r:
    Option<(u32, u32)>)
    ensures
        match spec_embed_target(
            x as int,
            y as int,
            offset_x as int,
            offset_y as int,
            grid_x as int,
            grid_y as int,
        ) {
            Some(t) => r is Some && r->Some_0.0 == t.0 && r->Some_0.1 == t.1,
            None => r is None,
        },
{
    let ex: i128 = x as i128 + offset_x as i128;
    let ey: i128 = y as i128 + offset_y as i128;
    if ex > 0 && ey > 0 && ex < grid_x as i128 && ey < grid_y as i128 {
        Some((ex as u32, ey as u32))
    } else {
        None
    }
}

/// What the source plane holds at `(u, v)` once an amplitude map of
/// `width` by `height` cells is embedded at the given offsets: the cell of
/// the map that falls there, if there is one and the place is not on the
/// plane's first row or column, else `fill`. Map and plane are flattened
/// with their first axis running fastest.
pub open spec fn spec_embedded<T>(
    map: Seq<T>,
    width: int,
    height: int,
    offset_x: int,
    offset_y: int,
    fill: T,
    u: int,
    v: int,
) -> T {
    if u > 0 && v > 0 && 0 <= u - offset_x < width && 0 <= v - offset_y < height {
        map[(u - offset_x) + width * (v - offset_y)]
    } else {
        fill
    }
}

/// A place of the plane shows a cell of the map exactly when that cell's
/// target is the place.
pub proof fn lemma_embedded_is_target<T>(
    map: Seq<T>,
    width: int,
    height: int,
    offset_x: int,
    offset_y: int,
    grid_x: int,
    grid_y: int,
    fill: T,
    x: int,
    y: int,
)
    requires
        0 <= x < width,
        0 <= y < height,
    ensures
        match spec_embed_target(x, y, offset_x, offset_y, grid_x, grid_y) {
            Some(t) => 0 <= t.0 < grid_x && 0 <= t.1 < grid_y && spec_embedded(
                map,
                width,
                height,
                offset_x,
                offset_y,
                fill,
                t.0,
                t.1,
            ) == map[x + width * y],
            None => !(0 < x + offset_x < grid_x && 0 < y + offset_y < grid_y),
        },
{
}

proof fn lemma_plane_place(width: int, height: int, a: int, b: int)
    requires
        0 <= a < width,
        0 <= b < height,
    ensures
        0 <= a + width * b < width * height,
        width * b + width == width * (b + 1),
        0 <= width * b,
{
    assert(0 <= a + width * b < width * height && width * b + width == width * (b + 1) && 0
        <= width * b) by (nonlinear_arith)
        requires
            0 <= a < width,
            0 <= b < height,
    ;
}

/// Embeds an amplitude map in a source plane of `grid_x` by `grid_y` cells.
pub fn embed<T: Copy>(
    map: &Vec<T>,
    width: u32,
    height: u32,
    offset_x: i64,
    offset_y: i64,
    grid_x: u32,
    grid_y: u32,
    fill: T,
) -> (out: Vec<T>)
    requires
        map@.len() == width * height,
    ensures
        out@.len() == grid_x * grid_y,
        forall|u: int, v: int|
            0 <= u < grid_x && 0 <= v < grid_y ==> out@[u + grid_x * v] == spec_embedded(
                map@,
                width as int,
                height as int,
                offset_x as int,
                offset_y as int,
                fill,
                u,
                v,
            ),
{
    let mut out: Vec<T> = Vec::new();
    let total = map.len();
    let mut v: u32 = 0;
    while v < grid_y
        invariant
            v <= grid_y,
            total == map@.len(),
            map@.len() == width * height,
            out@.len() == grid_x * v,
            forall|a: int, b: int|
                0 <= a < grid_x && 0 <= b < v ==> out@[a + grid_x * b] == spec_embedded(
                    map@,
                    width as int,
                    height as int,
                    offset_x as int,
                    offset_y as int,
                    fill,
                    a,
                    b,
                ),
        decreases grid_y - v,
    {
        let mut u: u32 = 0;
        let ghost rows = out@;
        while u < grid_x
            invariant
                v < grid_y,
                u <= grid_x,
                total == map@.len(),
                map@.len() == width * height,
                rows.len() == grid_x * v,
                out@.len() == grid_x * v + u,
                out@.take(rows.len() as int) == rows,
                forall|a: int|
                    0 <= a < u ==> out@[grid_x * v + a] == spec_embedded(
                        map@,
                        width as int,
                        height as int,
                        offset_x as int,
                        offset_y as int,
                        fill,
                        a,
                        v as int,
                    ),
            decreases grid_x - u,
        {
            let x: i128 = u as i128 - offset_x as i128;
            let y: i128 = v as i128 - offset_y as i128;
            let value = if u > 0 && v > 0 && 0 <= x && x < width as i128 && 0 <= y && y
                < height as i128 {
                proof {
                    lemma_plane_place(width as int, height as int, x as int, y as int);
                }
                let row: usize = width as usize * (y as usize);
                map[x as usize + row]
            } else {
                fill
            };
            let ghost before = out@;
            out.push(value);
            proof {
                assert(out@.take(rows.len() as int) =~= before.take(rows.len() as int));
            }
            u = u + 1;
        }
        proof {
            assert(grid_x * v + grid_x == grid_x * (v + 1)) by (nonlinear_arith);
            assert forall|a: int, b: int| 0 <= a < grid_x && 0 <= b < v + 1 implies out@[a + grid_x
                * b] == spec_embedded(
                map@,
                width as int,
                height as int,
                offset_x as int,
                offset_y as int,
                fill,
                a,
                b,
            ) by {
                if b < v {
                    assert(0 <= a + grid_x * b < grid_x * v) by (nonlinear_arith)
                        requires
                            0 <= a < grid_x,
                            0 <= b < v,
                    ;
                    assert(out@[a + grid_x * b] == out@.take(rows.len() as int)[a + grid_x * b]);
                } else {
                    assert(out@[grid_x * v + a] == out@[a + grid_x * b]);
                }
            }
        }
        v = v + 1;
    }
    out
}

} // verus!
