use crate::error::SubfileError;
use rayon::iter::{IndexedParallelIterator, IntoParallelRefMutIterator, ParallelIterator};
use vstd::prelude::*;

verus! {

/// ndarray's `ShapeError`, which `Array2::from_shape_vec` returns for a
/// shape that does not fit its vector; only carried, never looked into.
#[verifier::external_type_specification]
#[verifier::external_body]
pub struct ExShapeError(ndarray::ShapeError);

/// The number of zero bits among the lowest `k` bits of `b`.
pub open spec fn zero_bits_below(b: u8, k: nat) -> nat
    decreases k,
{
    if k == 0 {
        0
    } else {
        zero_bits_below(b, (k - 1) as nat) + if (b >> ((k - 1) as u8)) & 1u8 == 0u8 {
            1nat
        } else {
            0nat
        }
    }
}

/// The packets that one bitmap byte records as lost: its zero bits.
pub open spec fn byte_loss(b: u8) -> nat {
    zero_bits_below(b, 8)
}

/// The lost packets recorded by a run of bitmap bytes.
pub open spec fn loss_sum(row: Seq<u8>) -> nat
    decreases row.len(),
{
    if row.len() == 0 {
        0
    } else {
        loss_sum(row.drop_last()) + byte_loss(row.last())
    }
}

/// A count held in 16 bits: counts past `u16::MAX` stay at `u16::MAX`.
pub open spec fn saturate_u16(n: nat) -> u16 {
    if n > u16::MAX {
        u16::MAX
    } else {
        n as u16
    }
}

/// The bytes of one input's row when the map is read as rows of `width` bytes.
pub open spec fn input_row(map: Seq<u8>, input: int, width: int) -> Seq<u8> {
    map.subrange(input * width, input * width + width)
}

/// The lost-packet counter of one input.
pub open spec fn input_loss(map: Seq<u8>, input: int, width: int) -> u16 {
    saturate_u16(loss_sum(input_row(map, input, width)))
}

/// The counters of all `ninputs` inputs, in input order, for a map split into
/// `ninputs` rows of `map.len() / ninputs` bytes.
pub open spec fn loss_counts(map: Seq<u8>, ninputs: nat) -> Seq<u16> {
    Seq::new(ninputs, |i: int| input_loss(map, i, (map.len() / ninputs) as int))
}

/// A run of equal bytes loses as many packets as one byte, once per byte.
proof fn lemma_loss_sum_uniform(row: Seq<u8>, b: u8)
    requires
        forall|i: int| 0 <= i < row.len() ==> row[i] == b,
    ensures
        loss_sum(row) == row.len() * byte_loss(b),
    decreases row.len(),
{
    if row.len() > 0 {
        lemma_loss_sum_uniform(row.drop_last(), b);
        assert(loss_sum(row) == (row.len() - 1) * byte_loss(b) + byte_loss(b));
        assert((row.len() - 1) * byte_loss(b) + byte_loss(b) == row.len() * byte_loss(b))
            by (nonlinear_arith);
    }
}

/// Input `i`'s row lies inside a map of `ninputs` equal rows.
proof fn lemma_row_in_map(len: nat, ninputs: nat, i: int)
    requires
        ninputs > 0,
        0 <= i < ninputs,
    ensures
        0 <= i * (len / ninputs) as int,
        i * (len / ninputs) as int + (len / ninputs) as int <= len,
{
    let w = len / ninputs;
    lemma_row_in_layout(ninputs, w, i);
    assert(ninputs * w <= len) by (nonlinear_arith)
        requires
            w == len / ninputs,
            ninputs > 0,
    ;
}

/// Where every bitmap byte is `0xFF`, every packet arrived: each input's
/// counter is zero, whatever the number of inputs and the map's length.
pub proof fn lemma_all_received_no_loss(map: Seq<u8>, ninputs: nat)
    requires
        ninputs > 0,
        map.len() % ninputs == 0,
        forall|i: int| 0 <= i < map.len() ==> map[i] == 0xFFu8,
    ensures
        forall|i: int| 0 <= i < ninputs ==> #[trigger] loss_counts(map, ninputs)[i] == 0,
{
    assert forall|k: u8| k < 8 implies (0xFFu8 >> k) & 1u8 == 1u8 by {
        assert(k < 8 ==> (0xFFu8 >> k) & 1u8 == 1u8) by (bit_vector);
    }
    reveal_with_fuel(zero_bits_below, 9);
    assert(byte_loss(0xFFu8) == 0);
    assert forall|i: int| 0 <= i < ninputs implies #[trigger] loss_counts(map, ninputs)[i] == 0 by {
        let w = (map.len() / ninputs) as int;
        lemma_row_in_map(map.len(), ninputs, i);
        lemma_loss_sum_uniform(input_row(map, i, w), 0xFFu8);
    }
}

/// Where all 240 inputs' bitmap bytes are `0x00`, no packet arrived: each
/// counter is eight lost packets per byte of the input's row, `8 * (L / 240)`
/// for a map of `L` bytes (while that fits in a counter).
pub proof fn lemma_nothing_received_full_loss(map: Seq<u8>)
    requires
        forall|i: int| 0 <= i < map.len() ==> map[i] == 0u8,
        8 * (map.len() / 240) <= u16::MAX,
    ensures
        forall|i: int|
            0 <= i < 240 ==> #[trigger] loss_counts(map, 240)[i] == 8 * (map.len() / 240),
{
    assert forall|k: u8| k < 8 implies (0u8 >> k) & 1u8 == 0u8 by {
        assert((0u8 >> k) & 1u8 == 0u8) by (bit_vector);
    }
    reveal_with_fuel(zero_bits_below, 9);
    assert(byte_loss(0u8) == 8);
    assert forall|i: int| 0 <= i < 240 implies #[trigger] loss_counts(map, 240)[i] == 8 * (map.len()
        / 240) by {
        let w = (map.len() / 240) as int;
        lemma_row_in_map(map.len(), 240, i);
        lemma_loss_sum_uniform(input_row(map, i, w), 0u8);
    }
}

/// Counts the zero bits of one bitmap byte: each is a packet that was not captured.
pub fn lost_packets_in_byte(b: u8) -> (r: u8)
    ensures
        r as nat == byte_loss(b),
        r <= 8,
{
    let mut zeros: u8 = 0;
    let mut k: u8 = 0;
    while k < 8
        invariant
            k <= 8,
            zeros <= k,
            zeros as nat == zero_bits_below(b, k as nat),
        decreases 8 - k,
    {
        if (b >> k) & 1 == 0 {
            zeros = zeros + 1;
        }
        k = k + 1;
    }
    zeros
}

/// The packet map laid out as one row of bytes per input, in input order,
/// held in an ndarray `Array2<u8>` (whose type Verus cannot declare).
#[verifier::external_body]
pub struct PacketMapRows {
    rows: ndarray::Array2<u8>,
}

/// The bytes that a packet map layout holds, row after row.
pub uninterp spec fn row_major_bytes(m: PacketMapRows) -> Seq<u8>;

/// The number of rows of a packet map layout and the length of each row.
pub uninterp spec fn row_shape(m: PacketMapRows) -> (nat, nat);

/// The layout holds exactly its rows' bytes.
pub open spec fn rows_wf(m: PacketMapRows) -> bool {
    row_major_bytes(m).len() == row_shape(m).0 * row_shape(m).1
}

/// Relies on ndarray's `Array2::from_shape_vec` with a plain `(rows, row
/// length)` shape: it refuses a shape whose size differs from the vector's
/// length, accepts one that matches where each axis and the length are at
/// most `isize::MAX`, and keeps the vector's bytes in row-major order.
#[verifier::external_body]
fn reshape_rows(map: Vec<u8>, ninputs: usize, width: usize) -> (r: Result<
    PacketMapRows,
    ndarray::ShapeError,
>)
    ensures
        r is Ok ==> ninputs * width == map@.len(),
        ninputs * width == map@.len() && ninputs <= isize::MAX && width <= isize::MAX
            && map@.len() <= isize::MAX ==> r is Ok,
        match r {
            Ok(m) => row_major_bytes(m) == map@ && row_shape(m) == (ninputs as nat, width as nat),
            Err(_) => true,
        },
{
    match ndarray::Array2::from_shape_vec((ninputs, width), map) {
        Ok(rows) => Ok(PacketMapRows { rows }),
        Err(e) => Err(e),
    }
}

/// Relies on ndarray's indexing `rows[[input, b]]` on an array in standard
/// (row-major) layout: byte `b` of row `input`.
#[verifier::external_body]
fn map_byte(m: &PacketMapRows, input: usize, b: usize) -> (r: u8)
    requires
        input < row_shape(*m).0,
        b < row_shape(*m).1,
    ensures
        r == row_major_bytes(*m)[input * row_shape(*m).1 + b],
{
    m.rows[[input, b]]
}

/// Counts the lost packets of input `input`: the zero bits of its row.
fn row_loss(m: &PacketMapRows, input: usize, width: usize) -> (r: u16)
    requires
        rows_wf(*m),
        width == row_shape(*m).1,
        input < row_shape(*m).0,
    ensures
        r == input_loss(row_major_bytes(*m), input as int, row_shape(*m).1 as int),
{
    let ghost bytes = row_major_bytes(*m);
    let ghost start = input * width;
    proof {
        lemma_row_in_layout(row_shape(*m).0, width as nat, input as int);
    }
    let mut acc: u16 = 0;
    let mut b: usize = 0;
    while b < width
        invariant
            rows_wf(*m),
            input < row_shape(*m).0,
            bytes == row_major_bytes(*m),
            width == row_shape(*m).1,
            start == input * width,
            start + width <= bytes.len(),
            b <= width,
            acc == saturate_u16(loss_sum(bytes.subrange(start as int, start + b))),
        decreases width - b,
    {
        let z = lost_packets_in_byte(map_byte(m, input, b));
        proof {
            let next = bytes.subrange(start as int, start + b + 1);
            assert(next.drop_last() =~= bytes.subrange(start as int, start + b));
        }
        acc = acc.saturating_add(z as u16);
        b = b + 1;
    }
    acc
}

/// Row `input` of `rows` rows of `width` bytes ends inside the layout.
proof fn lemma_row_in_layout(rows: nat, width: nat, input: int)
    requires
        0 <= input < rows,
    ensures
        0 <= input * width,
        input * width + width <= rows * width,
{
    assert(0 <= input * width) by (nonlinear_arith)
        requires
            0 <= input,
    ;
    assert(input * width + width <= rows * width) by (nonlinear_arith)
        requires
            input + 1 <= rows,
    ;
}

/// Relies on rayon's `par_iter_mut().enumerate().for_each`: the closure runs
/// exactly once for every slot of `counts`, with that slot's index, and the
/// call returns when all have run.
#[verifier::external_body]
fn fill_rows_parallel(counts: &mut Vec<u16>, m: &PacketMapRows, width: usize)
    requires
        rows_wf(*m),
        width == row_shape(*m).1,
        old(counts)@.len() == row_shape(*m).0,
    ensures
        final(counts)@.len() == old(counts)@.len(),
        forall|i: int|
            0 <= i < final(counts)@.len() ==> final(counts)@[i] == input_loss(
                row_major_bytes(*m),
                i,
                row_shape(*m).1 as int,
            ),
{
    counts.par_iter_mut().enumerate().for_each(|(input, slot)| *slot = row_loss(m, input, width));
}

/// Counts the lost packets of every input of a packet map.
///
/// The map holds `ninputs` rows of `map.len() / ninputs` bytes, one row per
/// input in input order. A map that cannot be laid out so (its length is
/// not a multiple of `ninputs`, or `ninputs` exceeds `isize::MAX`) is
/// refused rather than having trailing bytes dropped. The rows are counted
/// in parallel; each counter stops at `u16::MAX`.
pub fn count_lost_packets(map: Vec<u8>, ninputs: usize) -> (r: Result<Vec<u16>, SubfileError>)
    requires
        map@.len() <= isize::MAX,
    ensures
        ninputs == 0 ==> r == Err::<Vec<u16>, SubfileError>(SubfileError::ZeroInputs),
        ninputs > 0 && (map@.len() % (ninputs as nat) != 0 || ninputs > isize::MAX) ==> r
            == Err::<Vec<u16>, SubfileError>(SubfileError::UnevenPacketMap),
        0 < ninputs <= isize::MAX && map@.len() % (ninputs as nat) == 0 ==> r is Ok
            && r->Ok_0@ == loss_counts(map@, ninputs as nat),
{
    if ninputs == 0 {
        return Err(SubfileError::ZeroInputs);
    }
    if map.len() % ninputs != 0 || ninputs > isize::MAX as usize {
        return Err(SubfileError::UnevenPacketMap);
    }
    let width: usize = map.len() / ninputs;
    let ghost bytes = map@;
    proof {
        assert(ninputs * width == map@.len()) by (nonlinear_arith)
            requires
                width == map@.len() / (ninputs as nat),
                map@.len() % (ninputs as nat) == 0,
                ninputs > 0,
        ;
        assert(width <= map@.len()) by (nonlinear_arith)
            requires
                width == map@.len() / (ninputs as nat),
                ninputs > 0,
        ;
    }
    let rows = match reshape_rows(map, ninputs, width) {
        Ok(rows) => rows,
        Err(_) => return Err(SubfileError::UnevenPacketMap),
    };
    let mut counts: Vec<u16> = vec![0u16; ninputs];
    fill_rows_parallel(&mut counts, &rows, width);
    assert(counts@ =~= loss_counts(bytes, ninputs as nat));
    Ok(counts)
}

} // verus!
