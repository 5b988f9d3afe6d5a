use vstd::prelude::*;
use vstd::string::StringExecFns;

verus! {

/// The little-endian value of four bytes.
pub open spec fn le_u32(b0: u8, b1: u8, b2: u8, b3: u8) -> int {
    b0 + 256 * b1 + 65536 * b2 + 16777216 * b3
}

/// The pick index stored in the four bytes of `bytes` that start at `start`.
pub open spec fn pick_index_at(bytes: Seq<u8>, start: int) -> int {
    le_u32(bytes[start], bytes[start + 1], bytes[start + 2], bytes[start + 3])
}

/// Reads the pick index that one RGBA8 pixel carries, red byte lowest.
pub fn decode_pick_index(pixel: &[u8]) -> (index: u32)
    requires
        pixel.len() >= 4,
    ensures
        index == pick_index_at(pixel@, 0),
{
    let b0 = pixel[0];
    let b1 = pixel[1];
    let b2 = pixel[2];
    let b3 = pixel[3];
    let r = (b0 as u32) | ((b1 as u32) << 8) | ((b2 as u32) << 16) | ((b3 as u32) << 24);
    assert(r == b0 + 256 * b1 + 65536 * b2 + 16777216 * b3) by (bit_vector)
        requires
            r == (b0 as u32) | ((b1 as u32) << 8) | ((b2 as u32) << 16) | ((b3 as u32) << 24),
    ;
    r
}

/// Writes a pick index as the four bytes of one RGBA8 pixel, red byte lowest.
pub fn encode_pick_index(index: u32) -> (pixel: [u8; 4])
    ensures
        le_u32(pixel[0], pixel[1], pixel[2], pixel[3]) == index,
{
    let b0 = (index & 0xff) as u8;
    let b1 = ((index >> 8) & 0xff) as u8;
    let b2 = ((index >> 16) & 0xff) as u8;
    let b3 = ((index >> 24) & 0xff) as u8;
    assert(b0 + 256 * b1 + 65536 * b2 + 16777216 * b3 == index) by (bit_vector)
        requires
            b0 == (index & 0xff) as u8,
            b1 == ((index >> 8) & 0xff) as u8,
            b2 == ((index >> 16) & 0xff) as u8,
            b3 == ((index >> 24) & 0xff) as u8,
    ;
    [b0, b1, b2, b3]
}

/// Decoding an encoded pick index gives the index back.
pub proof fn lemma_pick_index_round_trip(index: u32, pixel: [u8; 4])
    requires
        le_u32(pixel[0], pixel[1], pixel[2], pixel[3]) == index,
    ensures
        pick_index_at(pixel@, 0) == index,
{
}

/// Rounds `value` up to the next multiple of `alignment`.
pub fn align_to(value: u32, alignment: u32) -> (r: u32)
    requires
        alignment > 0,
        value % alignment == 0 || value + (alignment - value % alignment) <= u32::MAX,
    ensures
        r % alignment == 0,
        value <= r < value + alignment,
        value % alignment == 0 ==> r == value,
{
    let remainder = value % alignment;
    if remainder == 0 {
        value
    } else {
        let r = value + (alignment - remainder);
        assert(r % alignment == 0) by (nonlinear_arith)
            requires
                alignment > 0,
                remainder == value % alignment,
                r == value + (alignment - remainder),
        ;
        r
    }
}

/// The first `unpadded` bytes of each of the first `height` rows of `data`,
/// rows being `padded` bytes apart, one after the other.
pub open spec fn unpadded_rows(data: Seq<u8>, unpadded: int, padded: int, height: int) -> Seq<u8>
    decreases height,
{
    if height <= 0 {
        Seq::empty()
    } else {
        unpadded_rows(data, unpadded, padded, height - 1) + data.subrange(
            (height - 1) * padded,
            (height - 1) * padded + unpadded,
        )
    }
}

proof fn lemma_unpadded_rows_len(data: Seq<u8>, unpadded: int, padded: int, height: int)
    requires
        height >= 0,
        unpadded >= 0,
        unpadded <= padded,
        height == 0 || (height - 1) * padded + unpadded <= data.len(),
    ensures
        unpadded_rows(data, unpadded, padded, height).len() == height * unpadded,
    decreases height,
{
    if height > 0 {
        if height > 1 {
            assert((height - 2) * padded + unpadded <= (height - 1) * padded + unpadded)
                by (nonlinear_arith)
                requires
                    padded >= 0,
                    height >= 2,
            ;
        }
        lemma_unpadded_rows_len(data, unpadded, padded, height - 1);
        assert((height - 1) * unpadded + unpadded == height * unpadded) by (nonlinear_arith);
    }
}

/// Removes the row padding that a GPU readback buffer adds: keeps the first
/// `unpadded_bytes_per_row` bytes of each of `height` rows spaced
/// `padded_bytes_per_row` bytes apart.
pub fn strip_padded_rows(
    data: &[u8],
    unpadded_bytes_per_row: usize,
    padded_bytes_per_row: usize,
    height: usize,
) -> (rgba8: Vec<u8>)
    requires
        unpadded_bytes_per_row <= padded_bytes_per_row,
        height == 0 || (height - 1) * padded_bytes_per_row + unpadded_bytes_per_row
            <= data.len(),
    ensures
        rgba8@ == unpadded_rows(
            data@,
            unpadded_bytes_per_row as int,
            padded_bytes_per_row as int,
            height as int,
        ),
        rgba8.len() == height * unpadded_bytes_per_row,
{
    let mut rgba8: Vec<u8> = Vec::new();
    let mut row: usize = 0;
    while row < height
        invariant
            row <= height,
            unpadded_bytes_per_row <= padded_bytes_per_row,
            height == 0 || (height - 1) * padded_bytes_per_row + unpadded_bytes_per_row
                <= data.len(),
            rgba8@ == unpadded_rows(
                data@,
                unpadded_bytes_per_row as int,
                padded_bytes_per_row as int,
                row as int,
            ),
        decreases height - row,
    {
        assert(row * padded_bytes_per_row + unpadded_bytes_per_row <= data.len()) by (nonlinear_arith)
            requires
                row < height,
                (height - 1) * padded_bytes_per_row + unpadded_bytes_per_row <= data.len(),
        ;
        let src_start = row * padded_bytes_per_row;
        let ghost before = rgba8@;
        let mut col: usize = 0;
        while col < unpadded_bytes_per_row
            invariant
                col <= unpadded_bytes_per_row,
                src_start == row * padded_bytes_per_row,
                src_start + unpadded_bytes_per_row <= data.len(),
                rgba8@ == before + data@.subrange(src_start as int, src_start + col),
            decreases unpadded_bytes_per_row - col,
        {
            rgba8.push(data[src_start + col]);
            assert(data@.subrange(src_start as int, src_start + col + 1) == data@.subrange(
                src_start as int,
                src_start + col,
            ).push(data@[src_start + col]));
            col += 1;
        }
        row += 1;
        assert(rgba8@ == unpadded_rows(
            data@,
            unpadded_bytes_per_row as int,
            padded_bytes_per_row as int,
            row as int,
        ));
    }
    proof {
        lemma_unpadded_rows_len(
            data@,
            unpadded_bytes_per_row as int,
            padded_bytes_per_row as int,
            height as int,
        );
    }
    rgba8
}


/// The pixels of an RGBA8 image `bytes` at indices `i` and `j` differ.
pub open spec fn pixels_differ(bytes: Seq<u8>, i: int, j: int) -> bool {
    bytes.subrange(4 * i, 4 * i + 4) != bytes.subrange(4 * j, 4 * j + 4)
}

/// A rendered RGBA8 image read back from the GPU.
#[derive(Clone, Debug, PartialEq, Eq)]
pub struct RenderedImage {
    pub width: u32,
    pub height: u32,
    pub rgba8: Vec<u8>,
}

impl RenderedImage {
    /// Whether the image holds at least two different pixel values.
    pub fn has_variation(&self) -> (r: bool)
        ensures
            r == exists|i: int, j: int|
                0 <= i < self.rgba8.len() / 4 && 0 <= j < self.rgba8.len() / 4
                    && #[trigger] pixels_differ(self.rgba8@, i, j),
    {
        let bytes = &self.rgba8;
        let count = bytes.len() / 4;
        if count < 2 {
            assert forall|i: int, j: int|
                0 <= i < count && 0 <= j < count implies !#[trigger] pixels_differ(bytes@, i, j) by {
                assert(i == j);
            }
            return false;
        }
        let mut k: usize = 1;
        while k < count
            invariant
                1 <= k <= count,
                count == bytes.len() / 4,
                bytes@ == self.rgba8@,
                forall|m: int| 0 <= m < k ==> !#[trigger] pixels_differ(bytes@, 0, m),
            decreases count - k,
        {
            let base = 4 * k;
            let same = bytes[0] == bytes[base] && bytes[1] == bytes[base + 1]
                && bytes[2] == bytes[base + 2] && bytes[3] == bytes[base + 3];
            if !same {
                assert(bytes@.subrange(0, 4)[0] != bytes@.subrange(4 * k, 4 * k + 4)[0]
                    || bytes@.subrange(0, 4)[1] != bytes@.subrange(4 * k, 4 * k + 4)[1]
                    || bytes@.subrange(0, 4)[2] != bytes@.subrange(4 * k, 4 * k + 4)[2]
                    || bytes@.subrange(0, 4)[3] != bytes@.subrange(4 * k, 4 * k + 4)[3]);
                assert(pixels_differ(bytes@, 0, k as int));
                return true;
            }
            assert(bytes@.subrange(0, 4) =~= bytes@.subrange(4 * k, 4 * k + 4));
            k += 1;
        }
        assert forall|i: int, j: int|
            0 <= i < count && 0 <= j < count implies !#[trigger] pixels_differ(bytes@, i, j) by {
            assert(!pixels_differ(bytes@, 0, i));
            assert(!pixels_differ(bytes@, 0, j));
        }
        false
    }
}

/// Indices into the pick targets that the first `pixels` pixels of a pick
/// buffer name, each once, in the order in which they first appear. Index
/// zero is background; indices past the targets are ignored.
pub open spec fn pick_hits(bytes: Seq<u8>, pixels: int, target_count: int) -> Seq<usize>
    decreases pixels,
{
    if pixels <= 0 {
        Seq::empty()
    } else {
        let prev = pick_hits(bytes, pixels - 1, target_count);
        let index = pick_index_at(bytes, 4 * (pixels - 1));
        if index != 0 && index <= target_count && !prev.contains((index - 1) as usize) {
            prev.push((index - 1) as usize)
        } else {
            prev
        }
    }
}

proof fn lemma_pick_hits_bounded(bytes: Seq<u8>, pixels: int, target_count: int)
    ensures
        forall|k: int|
            0 <= k < pick_hits(bytes, pixels, target_count).len() ==> #[trigger] pick_hits(
                bytes,
                pixels,
                target_count,
            )[k] < target_count,
    decreases pixels,
{
    if pixels > 0 {
        lemma_pick_hits_bounded(bytes, pixels - 1, target_count);
        let prev = pick_hits(bytes, pixels - 1, target_count);
        let index = pick_index_at(bytes, 4 * (pixels - 1));
        if index != 0 && index <= target_count && !prev.contains((index - 1) as usize) {
            let next = prev.push((index - 1) as usize);
            assert forall|k: int| 0 <= k < next.len() implies next[k] < target_count by {
                if k < prev.len() {
                    assert(next[k] == prev[k]);
                }
            }
        }
    }
}

/// Which pick targets an RGBA8 pick buffer shows: the position of each
/// target seen, once each, in order of first appearance.
pub fn decode_pick_hit_indices(rgba8: &[u8], target_count: usize) -> (hits: Vec<usize>)
    ensures
        hits@ == pick_hits(rgba8@, (rgba8.len() / 4) as int, target_count as int),
{
    broadcast use vstd::std_specs::hash::group_hash_axioms;

    let mut seen: std::collections::HashSet<u32> = std::collections::HashSet::new();
    let mut hits: Vec<usize> = Vec::new();
    let count = rgba8.len() / 4;
    let mut k: usize = 0;
    while k < count
        invariant
            k <= count,
            count == rgba8.len() / 4,
            hits@ == pick_hits(rgba8@, k as int, target_count as int),
            forall|v: u32|
                1 <= v <= target_count ==> (#[trigger] seen@.contains(v) <==> hits@.contains(
                    (v - 1) as usize,
                )),
        decreases count - k,
    {
        let index = decode_pick_index(&rgba8[4 * k..4 * k + 4]);
        assert(rgba8@.subrange(4 * k as int, 4 * k + 4)[0] == rgba8@[4 * k as int]);
        assert(rgba8@.subrange(4 * k as int, 4 * k + 4)[1] == rgba8@[4 * k + 1]);
        assert(rgba8@.subrange(4 * k as int, 4 * k + 4)[2] == rgba8@[4 * k + 2]);
        assert(rgba8@.subrange(4 * k as int, 4 * k + 4)[3] == rgba8@[4 * k + 3]);
        let ghost prev = hits@;
        let ghost seen_before = seen@;
        proof {
            lemma_pick_hits_bounded(rgba8@, k as int, target_count as int);
        }
        if index != 0 {
            let fresh = seen.insert(index);
            assert(seen@ == seen_before.insert(index));
            assert(fresh == !seen_before.contains(index));
            if fresh && ((index - 1) as usize) < target_count {
                hits.push((index - 1) as usize);
            }
        }
        k += 1;
        assert(hits@ == pick_hits(rgba8@, k as int, target_count as int));
        assert forall|v: u32| 1 <= v <= target_count implies (#[trigger] seen@.contains(v)
            <==> hits@.contains((v - 1) as usize)) by {
            if index != 0 && v == index {
                if hits@.len() > prev.len() {
                    assert(hits@[prev.len() as int] == (v - 1) as usize);
                } else {
                    assert(seen_before.contains(v));
                }
            } else {
                assert(seen@.contains(v) == seen_before.contains(v));
                if hits@.len() > prev.len() {
                    assert(hits@ == prev.push((index - 1) as usize));
                    if hits@.contains((v - 1) as usize) {
                        let w = choose|w: int| 0 <= w < hits@.len() && hits@[w] == (v - 1) as usize;
                        if w < prev.len() {
                            assert(prev[w] == hits@[w]);
                        }
                    }
                    if prev.contains((v - 1) as usize) {
                        let w = choose|w: int| 0 <= w < prev.len() && prev[w] == (v - 1) as usize;
                        assert(hits@[w] == prev[w]);
                    }
                } else {
                    assert(hits@ == prev);
                }
            }
        }
    }
    hits
}

/// Each pick hit of the first `pixels` pixels with the number of the pixel
/// where it was first seen, in order of first appearance.
pub open spec fn pick_hit_pixels(bytes: Seq<u8>, pixels: int, target_count: int) -> Seq<
    (usize, usize),
>
    decreases pixels,
{
    if pixels <= 0 {
        Seq::empty()
    } else {
        let prev = pick_hit_pixels(bytes, pixels - 1, target_count);
        let index = pick_index_at(bytes, 4 * (pixels - 1));
        if index != 0 && index <= target_count && !pick_hits(bytes, pixels - 1, target_count).contains(
            (index - 1) as usize,
        ) {
            prev.push(((index - 1) as usize, (pixels - 1) as usize))
        } else {
            prev
        }
    }
}

/// Which pick targets an RGBA8 pick buffer shows, each once in order of
/// first appearance, with the pixel where each was first seen (for the
/// depth at that pixel).
pub fn decode_pick_hit_pixels(rgba8: &[u8], target_count: usize) -> (hits: Vec<(usize, usize)>)
    ensures
        hits@ == pick_hit_pixels(rgba8@, (rgba8.len() / 4) as int, target_count as int),
{
    broadcast use vstd::std_specs::hash::group_hash_axioms;

    let mut seen: std::collections::HashSet<u32> = std::collections::HashSet::new();
    let mut hits: Vec<(usize, usize)> = Vec::new();
    let ghost mut targets: Seq<usize> = Seq::empty();
    let count = rgba8.len() / 4;
    let mut k: usize = 0;
    while k < count
        invariant
            k <= count,
            count == rgba8.len() / 4,
            targets == pick_hits(rgba8@, k as int, target_count as int),
            hits@ == pick_hit_pixels(rgba8@, k as int, target_count as int),
            forall|v: u32|
                1 <= v <= target_count ==> (#[trigger] seen@.contains(v) <==> targets.contains(
                    (v - 1) as usize,
                )),
        decreases count - k,
    {
        let index = decode_pick_index(&rgba8[4 * k..4 * k + 4]);
        assert(rgba8@.subrange(4 * k as int, 4 * k + 4)[0] == rgba8@[4 * k as int]);
        assert(rgba8@.subrange(4 * k as int, 4 * k + 4)[1] == rgba8@[4 * k + 1]);
        assert(rgba8@.subrange(4 * k as int, 4 * k + 4)[2] == rgba8@[4 * k + 2]);
        assert(rgba8@.subrange(4 * k as int, 4 * k + 4)[3] == rgba8@[4 * k + 3]);
        let ghost prev = targets;
        let ghost seen_before = seen@;
        proof {
            lemma_pick_hits_bounded(rgba8@, k as int, target_count as int);
        }
        if index != 0 {
            let fresh = seen.insert(index);
            assert(seen@ == seen_before.insert(index));
            if fresh && ((index - 1) as usize) < target_count {
                hits.push(((index - 1) as usize, k));
                proof {
                    targets = targets.push((index - 1) as usize);
                }
            }
        }
        k += 1;
        assert(targets == pick_hits(rgba8@, k as int, target_count as int));
        assert forall|v: u32| 1 <= v <= target_count implies (#[trigger] seen@.contains(v)
            <==> targets.contains((v - 1) as usize)) by {
            if index != 0 && v == index {
                if targets.len() > prev.len() {
                    assert(targets[prev.len() as int] == (v - 1) as usize);
                } else {
                    assert(seen_before.contains(v));
                }
            } else {
                assert(seen@.contains(v) == seen_before.contains(v));
                if targets.len() > prev.len() {
                    assert(targets == prev.push((index - 1) as usize));
                    if targets.contains((v - 1) as usize) {
                        let w = choose|w: int| 0 <= w < targets.len() && targets[w] == (v - 1) as usize;
                        if w < prev.len() {
                            assert(prev[w] == targets[w]);
                        }
                    }
                    if prev.contains((v - 1) as usize) {
                        let w = choose|w: int| 0 <= w < prev.len() && prev[w] == (v - 1) as usize;
                        assert(targets[w] == prev[w]);
                    }
                } else {
                    assert(targets == prev);
                }
            }
        }
    }
    hits
}

/// The row alignment that GPU texture-to-buffer copies require, in bytes.
pub const COPY_BYTES_PER_ROW_ALIGNMENT: u32 = 256;

/// Whether rounding a row of `width` RGBA8 pixels up to the copy alignment
/// overflows 32 bits, though the row itself fits.
pub open spec fn row_padding_overflows(width: u32) -> bool {
    let row = 4 * width;
    &&& row <= u32::MAX
    &&& row % 256 != 0
    &&& row + (256 - row % 256) > u32::MAX
}

/// The buffer layout of an RGBA8 region read back from the GPU.
#[derive(Clone, Copy, Debug, PartialEq, Eq, Structural)]
pub struct ReadbackLayout {
    pub unpadded_bytes_per_row: u32,
    pub padded_bytes_per_row: u32,
    pub size: u64,
}

/// The readback layout of a `width` by `height` RGBA8 region: rows of
/// `4 * width` bytes padded to the copy alignment. A row too wide for 32
/// bits is refused with `<subject> row is too wide`.
pub fn readback_layout(width: u32, height: u32, subject: &str) -> (r: Result<
    ReadbackLayout,
    String,
>)
    requires
        !row_padding_overflows(width),
    ensures
        4 * width > u32::MAX ==> (r matches Err(m) && m@ == subject@ + " row is too wide"@),
        4 * width <= u32::MAX ==> (r matches Ok(layout) && {
            &&& layout.unpadded_bytes_per_row == 4 * width
            &&& layout.padded_bytes_per_row % COPY_BYTES_PER_ROW_ALIGNMENT == 0
            &&& 4 * width <= layout.padded_bytes_per_row < 4 * width + COPY_BYTES_PER_ROW_ALIGNMENT
            &&& layout.size == layout.padded_bytes_per_row * height
        }),
{
    let unpadded = match width.checked_mul(4) {
        None => {
            let mut m = String::from_str(subject);
            m.append(" row is too wide");
            return Err(m);
        },
        Some(row) => row,
    };
    let padded = align_to(unpadded, COPY_BYTES_PER_ROW_ALIGNMENT);
    assert(padded as u64 * height as u64 <= u64::MAX) by (nonlinear_arith)
        requires
            padded <= u32::MAX,
            height <= u32::MAX,
    ;
    let size = (padded as u64) * (height as u64);
    Ok(ReadbackLayout { unpadded_bytes_per_row: unpadded, padded_bytes_per_row: padded, size })
}

/// The little-endian `u32` values that `bytes` holds, four bytes each; a
/// length that is not a multiple of four is refused with `<label> had a
/// non-u32 byte length`.
pub fn u32_values_from_bytes(bytes: &[u8], label: &str) -> (r: Result<Vec<u32>, String>)
    ensures
        bytes.len() % 4 != 0 ==> (r matches Err(m) && m@ == label@
            + " had a non-u32 byte length"@),
        bytes.len() % 4 == 0 ==> (r matches Ok(values) && values@.len() == bytes.len() / 4
            && forall|i: int|
            0 <= i < values@.len() ==> #[trigger] values@[i] == pick_index_at(bytes@, 4 * i)),
{
    if bytes.len() % 4 != 0 {
        let mut m = String::from_str(label);
        m.append(" had a non-u32 byte length");
        return Err(m);
    }
    let count = bytes.len() / 4;
    let mut values: Vec<u32> = Vec::new();
    let mut k: usize = 0;
    while k < count
        invariant
            k <= count,
            count == bytes.len() / 4,
            values@.len() == k,
            forall|i: int| 0 <= i < k ==> #[trigger] values@[i] == pick_index_at(bytes@, 4 * i),
        decreases count - k,
    {
        let value = decode_pick_index(&bytes[4 * k..4 * k + 4]);
        assert(bytes@.subrange(4 * k as int, 4 * k + 4)[0] == bytes@[4 * k as int]);
        assert(bytes@.subrange(4 * k as int, 4 * k + 4)[1] == bytes@[4 * k + 1]);
        assert(bytes@.subrange(4 * k as int, 4 * k + 4)[2] == bytes@[4 * k + 2]);
        assert(bytes@.subrange(4 * k as int, 4 * k + 4)[3] == bytes@[4 * k + 3]);
        values.push(value);
        k += 1;
    }
    Ok(values)
}

/// How many of the first `pixels` pixels of an RGBA8 pick buffer show a
/// flagged target: pick index `n > 0` names target `n - 1`, and a target
/// beyond `flags` is not flagged.
pub open spec fn flagged_pixel_count(bytes: Seq<u8>, pixels: int, flags: Seq<bool>) -> int
    decreases pixels,
{
    if pixels <= 0 {
        0
    } else {
        let index = pick_index_at(bytes, 4 * (pixels - 1));
        flagged_pixel_count(bytes, pixels - 1, flags) + if index != 0 && index - 1 < flags.len()
            && flags[index - 1] {
            1int
        } else {
            0int
        }
    }
}

/// Counts the pixels of an RGBA8 pick buffer that show a flagged target.
pub fn count_target_pick_pixels(pick_index_bytes: &[u8], target_flags: &[bool]) -> (count: usize)
    ensures
        count == flagged_pixel_count(
            pick_index_bytes@,
            (pick_index_bytes.len() / 4) as int,
            target_flags@,
        ),
{
    let pixels = pick_index_bytes.len() / 4;
    let mut count: usize = 0;
    let mut k: usize = 0;
    while k < pixels
        invariant
            k <= pixels,
            pixels == pick_index_bytes.len() / 4,
            count == flagged_pixel_count(pick_index_bytes@, k as int, target_flags@),
            count <= k,
        decreases pixels - k,
    {
        let index = decode_pick_index(&pick_index_bytes[4 * k..4 * k + 4]);
        assert(pick_index_bytes@.subrange(4 * k as int, 4 * k + 4)[0] == pick_index_bytes@[4 * k as int]);
        assert(pick_index_bytes@.subrange(4 * k as int, 4 * k + 4)[1] == pick_index_bytes@[4 * k + 1]);
        assert(pick_index_bytes@.subrange(4 * k as int, 4 * k + 4)[2] == pick_index_bytes@[4 * k + 2]);
        assert(pick_index_bytes@.subrange(4 * k as int, 4 * k + 4)[3] == pick_index_bytes@[4 * k + 3]);
        if index != 0 && ((index - 1) as usize) < target_flags.len() && target_flags[(index - 1) as usize] {
            count += 1;
        }
        k += 1;
    }
    count
}

/// What a decoded pick buffer reports, for every buffer: each reported
/// target is a real target (below the target count), none is reported
/// twice, each was named by some pixel, and every pixel that names a real
/// target has that target reported.
pub proof fn lemma_pick_hits_report_seen_targets(bytes: Seq<u8>, pixels: int, target_count: int)
    ensures
        ({
            let hits = pick_hits(bytes, pixels, target_count);
            &&& forall|k: int| 0 <= k < hits.len() ==> #[trigger] hits[k] < target_count
            &&& forall|i: int, j: int| 0 <= i < j < hits.len() ==> hits[i] != hits[j]
            &&& forall|k: int|
                #![trigger hits[k]]
                0 <= k < hits.len() ==> exists|p: int|
                    0 <= p < pixels && #[trigger] pick_index_at(bytes, 4 * p) == hits[k] + 1
            &&& forall|p: int|
                0 <= p < pixels && 1 <= #[trigger] pick_index_at(bytes, 4 * p) <= target_count
                    ==> hits.contains((pick_index_at(bytes, 4 * p) - 1) as usize)
        }),
    decreases pixels,
{
    lemma_pick_hits_bounded(bytes, pixels, target_count);
    if pixels > 0 {
        lemma_pick_hits_report_seen_targets(bytes, pixels - 1, target_count);
        let prev = pick_hits(bytes, pixels - 1, target_count);
        let hits = pick_hits(bytes, pixels, target_count);
        let last = pixels - 1;
        let index = pick_index_at(bytes, 4 * last);
        if index != 0 && index <= target_count && !prev.contains((index - 1) as usize) {
            assert(hits == prev.push((index - 1) as usize));
            assert forall|i: int, j: int| 0 <= i < j < hits.len() implies hits[i] != hits[j] by {
                if j == prev.len() {
                    assert(hits[i] == prev[i]);
                    if hits[i] == hits[j] {
                        assert(prev.contains((index - 1) as usize));
                    }
                } else {
                    assert(hits[i] == prev[i] && hits[j] == prev[j]);
                }
            }
            assert forall|k: int| #![trigger hits[k]] 0 <= k < hits.len() implies exists|p: int|
                0 <= p < pixels && #[trigger] pick_index_at(bytes, 4 * p) == hits[k] + 1 by {
                if k < prev.len() {
                    assert(hits[k] == prev[k]);
                    let p = choose|p: int|
                        0 <= p < pixels - 1 && #[trigger] pick_index_at(bytes, 4 * p) == prev[k]
                            + 1;
                    assert(0 <= p < pixels);
                } else {
                    assert(pick_index_at(bytes, 4 * last) == hits[k] + 1);
                }
            }
            assert forall|p: int|
                0 <= p < pixels && 1 <= #[trigger] pick_index_at(bytes, 4 * p)
                    <= target_count implies hits.contains(
                (pick_index_at(bytes, 4 * p) - 1) as usize,
            ) by {
                if p < pixels - 1 {
                    let v = (pick_index_at(bytes, 4 * p) - 1) as usize;
                    assert(prev.contains(v));
                    let w = choose|w: int| 0 <= w < prev.len() && prev[w] == v;
                    assert(hits[w] == v);
                } else {
                    assert(hits[prev.len() as int] == (index - 1) as usize);
                }
            }
        } else {
            assert(hits == prev);
            assert forall|k: int| #![trigger hits[k]] 0 <= k < hits.len() implies exists|p: int|
                0 <= p < pixels && #[trigger] pick_index_at(bytes, 4 * p) == hits[k] + 1 by {
                let p = choose|p: int|
                    0 <= p < pixels - 1 && #[trigger] pick_index_at(bytes, 4 * p) == prev[k] + 1;
                assert(0 <= p < pixels);
            }
        }
    }
}

/// The pixels reported with the pick hits: the targets are exactly those of
/// `pick_hits`, in the same order, and each comes with the first pixel that
/// names it.
pub proof fn lemma_pick_hit_pixels_are_first_sightings(
    bytes: Seq<u8>,
    pixels: int,
    target_count: int,
)
    requires
        pixels <= usize::MAX + 1,
    ensures
        ({
            let hits = pick_hit_pixels(bytes, pixels, target_count);
            &&& hits.len() == pick_hits(bytes, pixels, target_count).len()
            &&& forall|k: int|
                #![trigger hits[k]]
                0 <= k < hits.len() ==> {
                    &&& hits[k].0 == pick_hits(bytes, pixels, target_count)[k]
                    &&& hits[k].1 < pixels
                    &&& pick_index_at(bytes, 4 * hits[k].1) == hits[k].0 + 1
                    &&& forall|q: int|
                        0 <= q < hits[k].1 ==> #[trigger] pick_index_at(bytes, 4 * q) != hits[k].0 + 1
                }
        }),
    decreases pixels,
{
    if pixels > 0 {
        lemma_pick_hit_pixels_are_first_sightings(bytes, pixels - 1, target_count);
        lemma_pick_hits_report_seen_targets(bytes, pixels - 1, target_count);
        let prevp = pick_hit_pixels(bytes, pixels - 1, target_count);
        let prev = pick_hits(bytes, pixels - 1, target_count);
        let hits = pick_hit_pixels(bytes, pixels, target_count);
        let index = pick_index_at(bytes, 4 * (pixels - 1));
        if index != 0 && index <= target_count && !prev.contains((index - 1) as usize) {
            assert(hits == prevp.push(((index - 1) as usize, (pixels - 1) as usize)));
            assert(pick_hits(bytes, pixels, target_count) == prev.push((index - 1) as usize));
            assert(((pixels - 1) as usize) as int == pixels - 1);
            assert forall|k: int|
                #![trigger hits[k]]
                0 <= k < hits.len() implies {
                &&& hits[k].0 == pick_hits(bytes, pixels, target_count)[k]
                &&& hits[k].1 < pixels
                &&& pick_index_at(bytes, 4 * hits[k].1) == hits[k].0 + 1
                &&& forall|q: int|
                    0 <= q < hits[k].1 ==> #[trigger] pick_index_at(bytes, 4 * q) != hits[k].0 + 1
            } by {
                if k < prevp.len() {
                    assert(hits[k] == prevp[k]);
                } else {
                    assert forall|q: int| 0 <= q < hits[k].1 implies #[trigger] pick_index_at(bytes, 4 * q)
                        != hits[k].0 + 1 by {
                        if pick_index_at(bytes, 4 * q) == hits[k].0 + 1 {
                            assert(1 <= pick_index_at(bytes, 4 * q) <= target_count);
                            assert(prev.contains((pick_index_at(bytes, 4 * q) - 1) as usize));
                        }
                    }
                }
            }
        } else {
            assert(hits == prevp);
            assert(pick_hits(bytes, pixels, target_count) == prev);
        }
    }
}

/// What de-padding keeps: byte `c` of row `r` of the result is byte `c` of
/// row `r` of the padded data, for every row and every column of a row.
pub proof fn lemma_unpadded_rows_keep_row_bytes(
    data: Seq<u8>,
    unpadded: int,
    padded: int,
    height: int,
    r: int,
    c: int,
)
    requires
        0 <= unpadded <= padded,
        height == 0 || (height - 1) * padded + unpadded <= data.len(),
        0 <= r < height,
        0 <= c < unpadded,
    ensures
        unpadded_rows(data, unpadded, padded, height)[r * unpadded + c] == data[r * padded + c],
    decreases height,
{
    if height >= 2 {
        assert((height - 2) * padded + unpadded <= (height - 1) * padded + unpadded)
            by (nonlinear_arith)
            requires
                padded >= 0,
                height >= 2,
        ;
    }
    lemma_unpadded_rows_len(data, unpadded, padded, height - 1);
    assert((height - 1) * unpadded + unpadded == height * unpadded) by (nonlinear_arith);
    if r < height - 1 {
        lemma_unpadded_rows_keep_row_bytes(data, unpadded, padded, height - 1, r, c);
        assert(r * unpadded + c < (height - 1) * unpadded) by (nonlinear_arith)
            requires
                0 <= r < height - 1,
                0 <= c < unpadded,
        ;
    } else {
        assert(r * unpadded == (height - 1) * unpadded);
    }
}

/// Counting flagged pixels: the count never exceeds the pixels looked at;
/// it is zero when no target is flagged or no pixel names a target; it
/// counts every pixel when each names a flagged target; and looking at one
/// more pixel adds at most one.
pub proof fn lemma_flagged_pixel_count_bounds(bytes: Seq<u8>, pixels: int, flags: Seq<bool>)
    requires
        pixels >= 0,
    ensures
        0 <= flagged_pixel_count(bytes, pixels, flags) <= pixels,
        (forall|i: int| 0 <= i < flags.len() ==> !#[trigger] flags[i]) ==> flagged_pixel_count(
            bytes,
            pixels,
            flags,
        ) == 0,
        (forall|p: int| 0 <= p < pixels ==> #[trigger] pick_index_at(bytes, 4 * p) == 0)
            ==> flagged_pixel_count(bytes, pixels, flags) == 0,
        (forall|p: int|
            0 <= p < pixels ==> {
                let index = #[trigger] pick_index_at(bytes, 4 * p);
                index != 0 && index - 1 < flags.len() && flags[index - 1]
            }) ==> flagged_pixel_count(bytes, pixels, flags) == pixels,
        flagged_pixel_count(bytes, pixels, flags) <= flagged_pixel_count(bytes, pixels + 1, flags)
            <= flagged_pixel_count(bytes, pixels, flags) + 1,
    decreases pixels,
{
    if pixels > 0 {
        lemma_flagged_pixel_count_bounds(bytes, pixels - 1, flags);
        let index = pick_index_at(bytes, 4 * (pixels - 1));
        if index != 0 && index - 1 < flags.len() && flags[index - 1] {
            assert(flags[index - 1]);
        }
    }
}

} // verus!
