use vstd::prelude::*;

verus! {

/// Rows of a buffer that receives a copy of a texture start at multiples of
/// this many bytes.
pub const ROW_ALIGNMENT: u32 = 256;

/// Bytes of one cell of a field volume.
pub const BYTES_PER_CELL: u32 = 4;

/// Length of a row of cells in bytes, bare and as it lies in a copy buffer.
#[derive(Debug, Clone, Copy, PartialEq, Eq, Structural)]
pub struct RowLayout {
    pub unpadded: u32,
    pub padded: u32,
}

/// The least multiple of the row alignment that is not less than `bytes`.
pub open spec fn spec_padded(bytes: int) -> int {
    bytes + (256 - bytes % 256) % 256
}

/// Padding a row makes it a multiple of the alignment and adds less than
/// one alignment to it.
pub proof fn lemma_padded(bytes: int)
    requires
        bytes >= 0,
    ensures
        spec_padded(bytes) % 256 == 0,
        bytes <= spec_padded(bytes) < bytes + 256,
{
}

/// The layout of a row of `width` cells; `None` when the padded row does not
/// fit the index type.
pub fn row_layout(width: u32) -> (r: Option<RowLayout>)
    ensures
        r is Some <==> spec_padded(4 * width) <= u32::MAX,
        r is Some ==> r->Some_0.unpadded == 4 * width && r->Some_0.padded == spec_padded(4 * width),
{
    if width > u32::MAX / BYTES_PER_CELL {
        return None;
    }
    let unpadded: u32 = width * BYTES_PER_CELL;
    let padding: u32 = (ROW_ALIGNMENT - unpadded % ROW_ALIGNMENT) % ROW_ALIGNMENT;
    if padding > u32::MAX - unpadded {
        return None;
    }
    Some(RowLayout { unpadded, padded: unpadded + padding })
}

/// Bytes of the buffer that receives a copy of a volume of the given extent:
/// a padded row for every row of every layer. `None` when the row or the
/// total does not fit.
pub fn export_buffer_size(dimension: [u32; 3]) -> (r: Option<u64>)
    ensures
        r is Some <==> spec_padded(4 * dimension@[0]) <= u32::MAX && spec_padded(4 * dimension@[0])
            * dimension@[1] * dimension@[2] <= u64::MAX,
        r is Some ==> r->Some_0 == spec_padded(4 * dimension@[0]) * dimension@[1] * dimension@[2],
{
    let layout = match row_layout(dimension[0]) {
        Some(layout) => layout,
        None => {
            return None;
        },
    };
    let p: u128 = layout.padded as u128;
    let h: u128 = dimension[1] as u128;
    let d: u128 = dimension[2] as u128;
    assert(p * h <= 0xFFFF_FFFF * 0xFFFF_FFFF && p * h * d <= 0xFFFF_FFFF * 0xFFFF_FFFF
        * 0xFFFF_FFFF) by (nonlinear_arith)
        requires
            0 <= p <= 0xFFFF_FFFF,
            0 <= h <= 0xFFFF_FFFF,
            0 <= d <= 0xFFFF_FFFF,
    ;
    let total: u128 = p * h * d;
    if total > u64::MAX as u128 {
        None
    } else {
        Some(total as u64)
    }
}

/// The bare rows of a copy buffer: of every full padded row its first
/// `unpadded` bytes, in order.
pub open spec fn stripped(data: Seq<u8>, padded: int, unpadded: int) -> Seq<u8>
    decreases data.len(),
{
    if padded <= 0 || data.len() < padded {
        Seq::<u8>::empty()
    } else {
        data.take(unpadded) + stripped(data.skip(padded), padded, unpadded)
    }
}

/// A buffer of `rows` padded rows strips to `rows` bare rows.
pub proof fn lemma_stripped_len(data: Seq<u8>, padded: int, unpadded: int, rows: int)
    requires
        0 <= unpadded <= padded,
        padded > 0,
        rows >= 0,
        data.len() == rows * padded,
    ensures
        stripped(data, padded, unpadded).len() == rows * unpadded,
    decreases rows,
{
    if rows == 0 {
        assert(rows * padded == 0 && rows * unpadded == 0) by (nonlinear_arith)
            requires
                rows == 0,
        ;
    } else {
        assert(rows * padded == (rows - 1) * padded + padded && rows * unpadded == (rows - 1)
            * unpadded + unpadded && (rows - 1) * padded >= 0 && (rows - 1) * unpadded >= 0)
            by (nonlinear_arith)
            requires
                rows >= 1,
                padded >= 0,
                unpadded >= 0,
        ;
        lemma_stripped_len(data.skip(padded), padded, unpadded, rows - 1);
    }
}

/// Byte `c` of bare row `r` is byte `c` of padded row `r`.
pub proof fn lemma_stripped_byte(
    data: Seq<u8>,
    padded: int,
    unpadded: int,
    rows: int,
    r: int,
    c: int,
)
    requires
        0 <= unpadded <= padded,
        padded > 0,
        data.len() == rows * padded,
        0 <= r < rows,
        0 <= c < unpadded,
    ensures
        0 <= r * unpadded + c < stripped(data, padded, unpadded).len(),
        0 <= r * padded + c < data.len(),
        stripped(data, padded, unpadded)[r * unpadded + c] == data[r * padded + c],
    decreases rows,
{
    lemma_stripped_len(data, padded, unpadded, rows);
    assert(rows * padded == (rows - 1) * padded + padded && rows * unpadded == (rows - 1)
        * unpadded + unpadded && (rows - 1) * padded >= 0 && (rows - 1) * unpadded >= 0)
        by (nonlinear_arith)
        requires
            rows >= 1,
            padded >= 0,
            unpadded >= 0,
    ;
    assert(0 <= r * unpadded + c < rows * unpadded && 0 <= r * padded + c < rows * padded && r
        * unpadded == (r - 1) * unpadded + unpadded && r * padded == (r - 1) * padded + padded)
        by (nonlinear_arith)
        requires
            0 <= r < rows,
            0 <= c < unpadded,
            unpadded <= padded,
    ;
    let rest = data.skip(padded);
    let out = stripped(data, padded, unpadded);
    let tail = stripped(rest, padded, unpadded);
    assert(out == data.take(unpadded) + tail);
    if r == 0 {
        assert(r * unpadded + c == c && r * padded + c == c) by (nonlinear_arith)
            requires
                r == 0,
        ;
    } else {
        lemma_stripped_byte(rest, padded, unpadded, rows - 1, r - 1, c);
        assert(tail[(r - 1) * unpadded + c] == rest[(r - 1) * padded + c]);
        assert(rest[(r - 1) * padded + c] == data[(r - 1) * padded + c + padded]);
        assert(out[r * unpadded + c] == tail[r * unpadded + c - unpadded]);
    }
}

/// Removes the padding from the rows of a copy buffer.
pub fn strip_row_padding(data: &Vec<u8>, padded: usize, unpadded: usize) -> (out: Vec<u8>)
    requires
        padded > 0,
        unpadded <= padded,
        data@.len() as int % padded as int == 0,
    ensures
        out@ == stripped(data@, padded as int, unpadded as int),
{
    let mut out: Vec<u8> = Vec::new();
    let mut offset: usize = 0;
    assert(data@.skip(0) == data@);
    while data.len() - offset >= padded
        invariant
            padded > 0,
            unpadded <= padded,
            offset <= data@.len(),
            out@ + stripped(data@.skip(offset as int), padded as int, unpadded as int) == stripped(
                data@,
                padded as int,
                unpadded as int,
            ),
        decreases data@.len() - offset,
    {
        let ghost start = out@;
        let ghost rest = data@.skip(offset as int);
        let mut c: usize = 0;
        while c < unpadded
            invariant
                c <= unpadded,
                unpadded <= padded,
                offset + padded <= data@.len(),
                data@.len() <= usize::MAX,
                rest == data@.skip(offset as int),
                out@ == start + rest.take(c as int),
            decreases unpadded - c,
        {
            out.push(data[offset + c]);
            c = c + 1;
            assert(out@ =~= start + rest.take(c as int));
        }
        proof {
            assert(rest.skip(padded as int) == data@.skip(offset + padded));
            assert(start + rest.take(unpadded as int) + stripped(
                rest.skip(padded as int),
                padded as int,
                unpadded as int,
            ) =~= start + (rest.take(unpadded as int) + stripped(
                rest.skip(padded as int),
                padded as int,
                unpadded as int,
            )));
        }
        offset = offset + padded;
    }
    assert(out@ + Seq::<u8>::empty() =~= out@);
    out
}

} // verus!
