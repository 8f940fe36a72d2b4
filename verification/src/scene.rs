//! A point cloud of Gaussian splats: its rows, its texture and how clouds are joined.

use crate::bytes::le_u32_at;
use vstd::prelude::*;

verus! {

/// Bytes of a splat row: position and scale (three numbers each), colour and rotation (four bytes
/// each).
pub const ROW_LENGTH: usize = 32;

/// Texels per texture row; a splat takes two.
pub const TEX_WIDTH: usize = 2048;

/// A point cloud of Gaussian splats. Numbers are bit patterns.
pub struct Scene {
    pub splat_count: usize,
    pub buffer: Vec<u8>,
    pub tex_data: Vec<u32>,
    pub tex_width: usize,
    pub tex_height: usize,
    pub orig_means: Option<Vec<[u32; 3]>>,
    pub orig_quats: Option<Vec<[u32; 4]>>,
    /// Maps the splats in their drawing-independent order back to the rows of the source file.
    pub source_row_indices: Vec<u32>,
}

/// The contents of an optional list.
pub open spec fn list_view<T>(list: Option<Vec<T>>) -> Option<Seq<T>> {
    match list {
        Some(v) => Some(v@),
        None => None,
    }
}

/// Rows numbered in order.
pub open spec fn identity_rows(n: nat) -> Seq<u32> {
    Seq::new(n, |i: int| i as u32)
}

/// The rows that a scene stands for: its own list if it has one per splat, else all in order.
pub open spec fn effective_rows(splat_count: usize, rows: Seq<u32>) -> Seq<u32> {
    if rows.len() == splat_count {
        rows
    } else {
        identity_rows(splat_count as nat)
    }
}

/// Joining optional per-splat lists: kept only if both sides have one, or the first is empty.
pub open spec fn joined_lists<T>(
    first: Option<Seq<T>>,
    first_empty: bool,
    second: Option<Seq<T>>,
) -> Option<Seq<T>> {
    match (first, second) {
        (Some(a), Some(b)) => Some(a + b),
        (None, Some(b)) => if first_empty {
            Some(b)
        } else {
            None
        },
        _ => None,
    }
}

/// The texture word `k`: eight words per splat, the position, a gap, the covariance and the colour.
pub open spec fn texture_word(buffer: Seq<u8>, covariance: Seq<[u32; 3]>, n: int, k: int) -> u32 {
    let splat = k / 8;
    let word = k % 8;
    if splat >= n || word == 3 {
        0
    } else if word < 3 {
        crate::bytes::le_u32(buffer, 32 * splat + 4 * word)
    } else if word < 7 {
        covariance[splat][word - 4]
    } else {
        crate::bytes::le_u32(buffer, 32 * splat + 24)
    }
}

/// Texture rows that hold two texels per splat.
pub open spec fn texture_height(splat_count: usize) -> int {
    (splat_count + 1023) / 1024
}

pub open spec fn texture_words(splat_count: usize) -> int {
    TEX_WIDTH * texture_height(splat_count) * 4
}

fn copy_all<T: Copy>(out: &mut Vec<T>, values: &[T])
    ensures
        final(out)@ == old(out)@ + values@,
{
    let ghost start = out@;
    for i in 0..values.len()
        invariant
            out@ == start + values@.take(i as int),
    {
        out.push(values[i]);
        assert(out@ =~= start + values@.take(i + 1));
    }
    assert(values@.take(values@.len() as int) =~= values@);
}

fn copy_of<T: Copy>(values: &[T]) -> (r: Vec<T>)
    ensures
        r@ == values@,
{
    let mut out: Vec<T> = Vec::new();
    copy_all(&mut out, values);
    assert(out@ =~= values@);
    out
}

/// All rows of a scene in order.
pub fn rows_in_order(n: usize) -> (r: Vec<u32>)
    requires
        n <= u32::MAX,
    ensures
        r@ == identity_rows(n as nat),
{
    let mut out: Vec<u32> = Vec::new();
    for i in 0..n
        invariant
            n <= u32::MAX,
            out@ == identity_rows(i as nat),
    {
        out.push(i as u32);
        assert(out@ =~= identity_rows((i + 1) as nat));
    }
    out
}

fn join_lists<T: Copy>(first: Option<Vec<T>>, first_empty: bool, second: &Option<Vec<T>>) -> (r:
    Option<Vec<T>>)
    ensures
        list_view(r) == joined_lists(list_view(first), first_empty, list_view(*second)),
{
    match first {
        Some(mut a) => match second {
            Some(b) => {
                copy_all(&mut a, b.as_slice());
                Some(a)
            },
            None => None,
        },
        None => match second {
            Some(b) => {
                if first_empty {
                    Some(copy_of(b.as_slice()))
                } else {
                    None
                }
            },
            None => None,
        },
    }
}

fn copy_list<T: Copy>(list: &Option<Vec<T>>) -> (r: Option<Vec<T>>)
    ensures
        list_view(r) == list_view(*list),
{
    match list {
        Some(v) => Some(copy_of(v.as_slice())),
        None => None,
    }
}

impl Scene {
    /// Two scenes hold the same data.
    pub open spec fn same_as(self, other: Scene) -> bool {
        &&& self.splat_count == other.splat_count
        &&& self.buffer@ == other.buffer@
        &&& self.tex_data@ == other.tex_data@
        &&& self.tex_width == other.tex_width
        &&& self.tex_height == other.tex_height
        &&& list_view(self.orig_means) == list_view(other.orig_means)
        &&& list_view(self.orig_quats) == list_view(other.orig_quats)
        &&& self.source_row_indices@ == other.source_row_indices@
    }

    pub open spec fn is_empty_scene(self) -> bool {
        &&& self.splat_count == 0
        &&& self.buffer@.len() == 0
        &&& self.tex_data@.len() == 0
        &&& self.tex_width == 0
        &&& self.tex_height == 0
        &&& self.orig_means is None
        &&& self.orig_quats is None
        &&& self.source_row_indices@.len() == 0
    }

    /// One row of bytes per splat.
    pub open spec fn rows_complete(self) -> bool {
        self.buffer@.len() == ROW_LENGTH * self.splat_count
    }

    /// A scene without splats.
    pub fn new() -> (r: Scene)
        ensures
            r.is_empty_scene(),
            r.rows_complete(),
    {
        Scene {
            splat_count: 0,
            buffer: Vec::new(),
            tex_data: Vec::new(),
            tex_width: 0,
            tex_height: 0,
            orig_means: None,
            orig_quats: None,
            source_row_indices: Vec::new(),
        }
    }

    /// A scene whose rows are the 32-byte rows of a `.splat` file.
    pub fn from_splat_rows(bytes: Vec<u8>) -> (r: Option<Scene>)
        requires
            bytes@.len() / 32 <= u32::MAX,
        ensures
            match r {
                Some(scene) => {
                    &&& bytes@.len() % 32 == 0
                    &&& scene.splat_count == bytes@.len() / 32
                    &&& scene.buffer@ == bytes@
                    &&& scene.rows_complete()
                    &&& scene.source_row_indices@ == identity_rows(scene.splat_count as nat)
                    &&& scene.tex_data@.len() == 0
                    &&& scene.tex_width == 0
                    &&& scene.tex_height == 0
                    &&& scene.orig_means is None
                    &&& scene.orig_quats is None
                },
                None => bytes@.len() % 32 != 0,
            },
    {
        if bytes.len() % 32 != 0 {
            return None;
        }
        let splat_count: usize = bytes.len() / 32;
        Some(
            Scene {
                splat_count,
                buffer: bytes,
                tex_data: Vec::new(),
                tex_width: 0,
                tex_height: 0,
                orig_means: None,
                orig_quats: None,
                source_row_indices: rows_in_order(splat_count),
            },
        )
    }

    /// Appends the splats of another scene.
    pub fn merge(&mut self, scene: &Scene)
        requires
            old(self).splat_count + scene.splat_count <= u32::MAX,
        ensures
            final(self).splat_count == old(self).splat_count + scene.splat_count,
            final(self).buffer@ == old(self).buffer@ + scene.buffer@,
            final(self).source_row_indices@ == effective_rows(
                old(self).splat_count,
                old(self).source_row_indices@,
            ) + effective_rows(scene.splat_count, scene.source_row_indices@),
            list_view(final(self).orig_means) == joined_lists(
                list_view(old(self).orig_means),
                old(self).splat_count == 0,
                list_view(scene.orig_means),
            ),
            list_view(final(self).orig_quats) == joined_lists(
                list_view(old(self).orig_quats),
                old(self).splat_count == 0,
                list_view(scene.orig_quats),
            ),
            final(self).tex_data@ == old(self).tex_data@,
            final(self).tex_width == old(self).tex_width,
            final(self).tex_height == old(self).tex_height,
    {
        copy_all(&mut self.buffer, scene.buffer.as_slice());
        if self.source_row_indices.len() != self.splat_count {
            self.source_row_indices = rows_in_order(self.splat_count);
        }
        if scene.source_row_indices.len() == scene.splat_count {
            copy_all(&mut self.source_row_indices, scene.source_row_indices.as_slice());
        } else {
            let rows: Vec<u32> = rows_in_order(scene.splat_count);
            copy_all(&mut self.source_row_indices, rows.as_slice());
        }
        let first_empty: bool = self.splat_count == 0;
        let means: Option<Vec<[u32; 3]>> = self.orig_means.take();
        self.orig_means = join_lists(means, first_empty, &scene.orig_means);
        let quats: Option<Vec<[u32; 4]>> = self.orig_quats.take();
        self.orig_quats = join_lists(quats, first_empty, &scene.orig_quats);
        self.splat_count = self.splat_count + scene.splat_count;
    }

    /// Becomes a copy of another scene.
    pub fn copy_from(&mut self, scene: &Scene)
        ensures
            final(self).same_as(*scene),
    {
        self.splat_count = scene.splat_count;
        self.buffer = copy_of(scene.buffer.as_slice());
        self.tex_data = copy_of(scene.tex_data.as_slice());
        self.tex_width = scene.tex_width;
        self.tex_height = scene.tex_height;
        self.orig_means = copy_list(&scene.orig_means);
        self.orig_quats = copy_list(&scene.orig_quats);
        self.source_row_indices = copy_of(scene.source_row_indices.as_slice());
    }

    /// Lays the splats out as a texture of 2048 texels per row: eight words per splat with the
    /// position, the packed covariance `covariance[i]` and the colour.
    pub fn generate_texture(&mut self, covariance: &[[u32; 3]])
        requires
            old(self).buffer@.len() > 0 ==> {
                &&& old(self).buffer@.len() >= ROW_LENGTH * old(self).splat_count
                &&& covariance@.len() == old(self).splat_count
                &&& texture_words(old(self).splat_count) <= usize::MAX
            },
        ensures
            final(self).splat_count == old(self).splat_count,
            final(self).buffer@ == old(self).buffer@,
            final(self).orig_means == old(self).orig_means,
            final(self).orig_quats == old(self).orig_quats,
            final(self).source_row_indices@ == old(self).source_row_indices@,
            old(self).buffer@.len() == 0 ==> *final(self) == *old(self),
            old(self).buffer@.len() > 0 ==> {
                &&& final(self).tex_width == TEX_WIDTH
                &&& final(self).tex_height == texture_height(old(self).splat_count)
                &&& final(self).tex_data@ == Seq::new(
                    texture_words(old(self).splat_count) as nat,
                    |k: int|
                        texture_word(
                            old(self).buffer@,
                            covariance@,
                            old(self).splat_count as int,
                            k,
                        ),
                )
            },
    {
        if self.buffer.len() == 0 {
            return;
        }
        let n: usize = self.splat_count;
        let total: usize = self.buffer.len();
        assert(texture_words(n) == 8192 * texture_height(n));
        let height: usize = n / 1024 + if n % 1024 == 0 {
            0
        } else {
            1
        };
        assert(height == texture_height(n));
        let words: usize = height * 8192;
        let mut texture: Vec<u32> = Vec::new();
        let mut i: usize = 0;
        while i < n
            invariant
                i <= n,
                n == self.splat_count,
                total == self.buffer@.len(),
                total >= 32 * n,
                covariance@.len() == n,
                texture@ == Seq::new(
                    (8 * i) as nat,
                    |k: int| texture_word(self.buffer@, covariance@, n as int, k),
                ),
                *self == *old(self),
            decreases n - i,
        {
            let row: usize = 32 * i;
            let ghost before = texture@;
            let cov: [u32; 3] = covariance[i];
            texture.push(le_u32_at(self.buffer.as_slice(), row));
            texture.push(le_u32_at(self.buffer.as_slice(), row + 4));
            texture.push(le_u32_at(self.buffer.as_slice(), row + 8));
            texture.push(0);
            texture.push(cov[0]);
            texture.push(cov[1]);
            texture.push(cov[2]);
            texture.push(le_u32_at(self.buffer.as_slice(), row + 24));
            proof {
                assert forall|k: int| 8 * i <= k < 8 * i + 8 implies #[trigger] texture@[k]
                    == texture_word(self.buffer@, covariance@, n as int, k) by {
                    assert(k / 8 == i);
                    assert(k % 8 == k - 8 * i);
                }
                assert(texture@ =~= Seq::new(
                    (8 * (i + 1)) as nat,
                    |k: int| texture_word(self.buffer@, covariance@, n as int, k),
                ));
            }
            i = i + 1;
        }
        let mut k: usize = 8 * n;
        while k < words
            invariant
                8 * n <= k <= words,
                words == height * 8192,
                height == texture_height(n),
                texture@ == Seq::new(
                    k as nat,
                    |m: int| texture_word(self.buffer@, covariance@, n as int, m),
                ),
                *self == *old(self),
            decreases words - k,
        {
            assert((k as int) / 8 >= n);
            texture.push(0);
            k = k + 1;
            assert(texture@ =~= Seq::new(
                k as nat,
                |m: int| texture_word(self.buffer@, covariance@, n as int, m),
            ));
        }
        self.tex_data = texture;
        self.tex_width = TEX_WIDTH;
        self.tex_height = height;
    }
}

impl Clone for Scene {
    fn clone(&self) -> (r: Scene)
        ensures
            r.same_as(*self),
    {
        let mut r: Scene = Scene::new();
        r.copy_from(self);
        r
    }
}

/// A splat as it is stored: numbers as bit patterns, colour and rotation quantised.
#[derive(Clone, Copy, Debug, PartialEq, Eq)]
pub struct SplatRow {
    pub position: [u32; 3],
    pub scale: [u32; 3],
    pub color: [u8; 4],
    pub rotation: [u8; 4],
    /// The rotation before it was quantised.
    pub quat: [u32; 4],
    /// Size times opacity: what splats are ordered by.
    pub size: u32,
}

/// The 32 bytes of a splat.
pub open spec fn row_bytes(row: SplatRow) -> Seq<u8> {
    crate::bytes::le_bytes(row.position[0]) + crate::bytes::le_bytes(row.position[1])
        + crate::bytes::le_bytes(row.position[2]) + crate::bytes::le_bytes(row.scale[0])
        + crate::bytes::le_bytes(row.scale[1]) + crate::bytes::le_bytes(row.scale[2]) + row.color@
        + row.rotation@
}

pub open spec fn sizes(rows: Seq<SplatRow>) -> Seq<u32> {
    Seq::new(rows.len(), |i: int| rows[i].size)
}

/// The bytes of the first `n` rows in the order `order`.
pub open spec fn ordered_bytes(rows: Seq<SplatRow>, order: Seq<u32>, n: nat) -> Seq<u8>
    decreases n,
{
    if n == 0 {
        Seq::empty()
    } else {
        ordered_bytes(rows, order, (n - 1) as nat) + row_bytes(rows[order[n - 1] as int])
    }
}

pub open spec fn ordered_quats(rows: Seq<SplatRow>, order: Seq<u32>) -> Seq<[u32; 4]> {
    Seq::new(order.len(), |i: int| rows[order[i] as int].quat)
}

pub open spec fn ordered_means(means: Seq<[u32; 3]>, order: Seq<u32>) -> Seq<[u32; 3]> {
    Seq::new(order.len(), |i: int| means[order[i] as int])
}

fn push_row(out: &mut Vec<u8>, row: &SplatRow)
    ensures
        final(out)@ == old(out)@ + row_bytes(*row),
{
    let ghost start = out@;
    crate::bytes::push_le_u32(out, row.position[0]);
    crate::bytes::push_le_u32(out, row.position[1]);
    crate::bytes::push_le_u32(out, row.position[2]);
    crate::bytes::push_le_u32(out, row.scale[0]);
    crate::bytes::push_le_u32(out, row.scale[1]);
    crate::bytes::push_le_u32(out, row.scale[2]);
    out.push(row.color[0]);
    out.push(row.color[1]);
    out.push(row.color[2]);
    out.push(row.color[3]);
    out.push(row.rotation[0]);
    out.push(row.rotation[1]);
    out.push(row.rotation[2]);
    out.push(row.rotation[3]);
    assert(out@ =~= start + row_bytes(*row));
}

/// Splat `i` of some bytes holds a row: its position and scale as six numbers, then the four bytes
/// of its colour, then the four bytes of its rotation.
pub open spec fn holds_row(bytes: Seq<u8>, i: int, row: SplatRow) -> bool {
    &&& crate::bytes::le_u32(bytes, 32 * i) == row.position[0]
    &&& crate::bytes::le_u32(bytes, 32 * i + 4) == row.position[1]
    &&& crate::bytes::le_u32(bytes, 32 * i + 8) == row.position[2]
    &&& crate::bytes::le_u32(bytes, 32 * i + 12) == row.scale[0]
    &&& crate::bytes::le_u32(bytes, 32 * i + 16) == row.scale[1]
    &&& crate::bytes::le_u32(bytes, 32 * i + 20) == row.scale[2]
    &&& bytes[32 * i + 24] == row.color[0]
    &&& bytes[32 * i + 25] == row.color[1]
    &&& bytes[32 * i + 26] == row.color[2]
    &&& bytes[32 * i + 27] == row.color[3]
    &&& bytes[32 * i + 28] == row.rotation[0]
    &&& bytes[32 * i + 29] == row.rotation[1]
    &&& bytes[32 * i + 30] == row.rotation[2]
    &&& bytes[32 * i + 31] == row.rotation[3]
}

pub(crate) proof fn splat_is_its_bytes(bytes: Seq<u8>, i: int, row: SplatRow)
    requires
        0 <= i,
        32 * i + 32 <= bytes.len(),
    ensures
        holds_row(bytes, i, row) == holds_row(bytes.subrange(32 * i, 32 * i + 32), 0, row),
{
    let part = bytes.subrange(32 * i, 32 * i + 32);
    assert(part[0] == bytes[32 * i + 0]);
    assert(part[1] == bytes[32 * i + 1]);
    assert(part[2] == bytes[32 * i + 2]);
    assert(part[3] == bytes[32 * i + 3]);
    assert(part[4] == bytes[32 * i + 4]);
    assert(part[5] == bytes[32 * i + 5]);
    assert(part[6] == bytes[32 * i + 6]);
    assert(part[7] == bytes[32 * i + 7]);
    assert(part[8] == bytes[32 * i + 8]);
    assert(part[9] == bytes[32 * i + 9]);
    assert(part[10] == bytes[32 * i + 10]);
    assert(part[11] == bytes[32 * i + 11]);
    assert(part[12] == bytes[32 * i + 12]);
    assert(part[13] == bytes[32 * i + 13]);
    assert(part[14] == bytes[32 * i + 14]);
    assert(part[15] == bytes[32 * i + 15]);
    assert(part[16] == bytes[32 * i + 16]);
    assert(part[17] == bytes[32 * i + 17]);
    assert(part[18] == bytes[32 * i + 18]);
    assert(part[19] == bytes[32 * i + 19]);
    assert(part[20] == bytes[32 * i + 20]);
    assert(part[21] == bytes[32 * i + 21]);
    assert(part[22] == bytes[32 * i + 22]);
    assert(part[23] == bytes[32 * i + 23]);
    assert(part[24] == bytes[32 * i + 24]);
    assert(part[25] == bytes[32 * i + 25]);
    assert(part[26] == bytes[32 * i + 26]);
    assert(part[27] == bytes[32 * i + 27]);
    assert(part[28] == bytes[32 * i + 28]);
    assert(part[29] == bytes[32 * i + 29]);
    assert(part[30] == bytes[32 * i + 30]);
    assert(part[31] == bytes[32 * i + 31]);
}

proof fn a_row_is_read_back(row: SplatRow)
    ensures
        row_bytes(row).len() == 32,
        holds_row(row_bytes(row), 0, row),
{
    let bytes = row_bytes(row);
    crate::bytes::le_bytes_round_trip(row.position[0]);
    crate::bytes::le_bytes_round_trip(row.position[1]);
    crate::bytes::le_bytes_round_trip(row.position[2]);
    crate::bytes::le_bytes_round_trip(row.scale[0]);
    crate::bytes::le_bytes_round_trip(row.scale[1]);
    crate::bytes::le_bytes_round_trip(row.scale[2]);
    assert(bytes.subrange(0, 4) =~= crate::bytes::le_bytes(row.position[0]));
    assert(bytes.subrange(4, 8) =~= crate::bytes::le_bytes(row.position[1]));
    assert(bytes.subrange(8, 12) =~= crate::bytes::le_bytes(row.position[2]));
    assert(bytes.subrange(12, 16) =~= crate::bytes::le_bytes(row.scale[0]));
    assert(bytes.subrange(16, 20) =~= crate::bytes::le_bytes(row.scale[1]));
    assert(bytes.subrange(20, 24) =~= crate::bytes::le_bytes(row.scale[2]));
    assert forall|k: int| 0 <= k <= 20 implies crate::bytes::le_u32(bytes, k)
        == crate::bytes::le_u32(#[trigger] bytes.subrange(k, k + 4), 0) by {}
    assert(bytes.subrange(24, 28) =~= row.color@);
    assert(bytes.subrange(28, 32) =~= row.rotation@);
    assert(bytes[24] == bytes.subrange(24, 28)[0]);
    assert(bytes[25] == bytes.subrange(24, 28)[1]);
    assert(bytes[26] == bytes.subrange(24, 28)[2]);
    assert(bytes[27] == bytes.subrange(24, 28)[3]);
    assert(bytes[28] == bytes.subrange(28, 32)[0]);
    assert(bytes[29] == bytes.subrange(28, 32)[1]);
    assert(bytes[30] == bytes.subrange(28, 32)[2]);
    assert(bytes[31] == bytes.subrange(28, 32)[3]);
}

/// Rows that were laid out one after the other can be read back: splat `i` holds the row that came
/// at place `i`.
pub proof fn rows_are_read_back(rows: Seq<SplatRow>, order: Seq<u32>, n: nat, i: int)
    requires
        0 <= i < n,
    ensures
        holds_row(ordered_bytes(rows, order, n), i, rows[order[i] as int]),
    decreases n,
{
    ordered_bytes_len(rows, order, n);
    ordered_bytes_len(rows, order, (n - 1) as nat);
    let whole = ordered_bytes(rows, order, n);
    let front = ordered_bytes(rows, order, (n - 1) as nat);
    let row = rows[order[i] as int];
    if i < n - 1 {
        rows_are_read_back(rows, order, (n - 1) as nat, i);
        splat_is_its_bytes(whole, i, row);
        splat_is_its_bytes(front, i, row);
        assert(whole.subrange(32 * i, 32 * i + 32) =~= front.subrange(32 * i, 32 * i + 32));
    } else {
        a_row_is_read_back(row);
        splat_is_its_bytes(whole, i, row);
        assert(whole.subrange(32 * i, 32 * i + 32) =~= row_bytes(row));
    }
}

/// The texture shows the splats of the bytes: the eight words of splat `i` are its position, a gap,
/// its packed covariance and the four bytes of its colour, and nothing follows the last splat.
pub proof fn texture_shows_the_rows(
    buffer: Seq<u8>,
    covariance: Seq<[u32; 3]>,
    n: int,
    i: int,
    row: SplatRow,
)
    requires
        0 <= i < n,
        holds_row(buffer, i, row),
    ensures
        texture_word(buffer, covariance, n, 8 * i) == row.position[0],
        texture_word(buffer, covariance, n, 8 * i + 1) == row.position[1],
        texture_word(buffer, covariance, n, 8 * i + 2) == row.position[2],
        texture_word(buffer, covariance, n, 8 * i + 3) == 0,
        texture_word(buffer, covariance, n, 8 * i + 4) == covariance[i][0],
        texture_word(buffer, covariance, n, 8 * i + 5) == covariance[i][1],
        texture_word(buffer, covariance, n, 8 * i + 6) == covariance[i][2],
        texture_word(buffer, covariance, n, 8 * i + 7) == row.color[0] + 0x100 * row.color[1]
            + 0x1_0000 * row.color[2] + 0x100_0000 * row.color[3],
        forall|k: int| 8 * n <= k ==> #[trigger] texture_word(buffer, covariance, n, k) == 0,
{
    assert((8 * i + 7) / 8 == i && (8 * i + 7) % 8 == 7);
    assert forall|k: int| 8 * n <= k implies #[trigger] texture_word(buffer, covariance, n, k)
        == 0 by {
        assert(k / 8 >= n);
    }
}

/// Every row takes 32 bytes of the ordered rows.
pub proof fn ordered_bytes_len(rows: Seq<SplatRow>, order: Seq<u32>, n: nat)
    ensures
        ordered_bytes(rows, order, n).len() == 32 * n,
    decreases n,
{
    if n > 0 {
        ordered_bytes_len(rows, order, (n - 1) as nat);
    }
}

impl Scene {
    /// Takes the splats of a file, the largest first; one whose size is not a number keeps its place.
    /// Rows and original positions stay aligned, and every splat remembers the row it came from.
    pub fn load(&mut self, rows: &[SplatRow], origins: Option<&Vec<[u32; 3]>>)
        requires
            rows@.len() <= u32::MAX,
            origins matches Some(means) ==> means@.len() == rows@.len(),
        ensures
            final(self).splat_count == rows@.len(),
            crate::ordering::is_size_order(final(self).source_row_indices@, sizes(rows@)),
            (forall|i: int|
                0 <= i < rows@.len() ==> !crate::float_bits::nan((#[trigger] rows@[i]).size))
                ==> crate::ordering::is_largest_first(
                final(self).source_row_indices@,
                sizes(rows@),
            ),
            final(self).buffer@ == ordered_bytes(
                rows@,
                final(self).source_row_indices@,
                rows@.len(),
            ),
            forall|i: int|
                0 <= i < rows@.len() ==> #[trigger] holds_row(
                    final(self).buffer@,
                    i,
                    rows@[final(self).source_row_indices@[i] as int],
                ),
            final(self).rows_complete(),
            final(self).orig_quats is Some,
            (final(self).orig_quats->0)@ == ordered_quats(
                rows@,
                final(self).source_row_indices@,
            ),
            match origins {
                Some(means) => final(self).orig_means is Some && (final(self).orig_means->0)@
                    == ordered_means(means@, final(self).source_row_indices@),
                None => final(self).orig_means is None,
            },
            final(self).tex_data == old(self).tex_data,
            final(self).tex_width == old(self).tex_width,
            final(self).tex_height == old(self).tex_height,
    {
        let n: usize = rows.len();
        let mut keys: Vec<u32> = Vec::new();
        let mut i: usize = 0;
        while i < n
            invariant
                i <= n,
                n == rows@.len(),
                keys@ == sizes(rows@).take(i as int),
            decreases n - i,
        {
            keys.push(rows[i].size);
            assert(keys@ =~= sizes(rows@).take(i + 1));
            i = i + 1;
        }
        assert(keys@ =~= sizes(rows@));
        let order: Vec<u32> = crate::ordering::order_by_size(keys.as_slice());
        let mut buffer: Vec<u8> = Vec::new();
        let mut quats: Vec<[u32; 4]> = Vec::new();
        let mut i: usize = 0;
        while i < n
            invariant
                i <= n,
                n == rows@.len(),
                crate::ordering::is_size_order(order@, sizes(rows@)),
                buffer@ == ordered_bytes(rows@, order@, i as nat),
                quats@ == ordered_quats(rows@, order@).take(i as int),
            decreases n - i,
        {
            let row: &SplatRow = &rows[order[i] as usize];
            push_row(&mut buffer, row);
            quats.push(row.quat);
            assert(quats@ =~= ordered_quats(rows@, order@).take(i + 1));
            i = i + 1;
        }
        assert(quats@ =~= ordered_quats(rows@, order@));
        let mut sorted_means: Option<Vec<[u32; 3]>> = None;
        if let Some(means) = origins {
            let mut out: Vec<[u32; 3]> = Vec::new();
            let mut i: usize = 0;
            while i < n
                invariant
                    i <= n,
                    n == rows@.len(),
                    means@.len() == n,
                    crate::ordering::is_size_order(order@, sizes(rows@)),
                    out@ == ordered_means(means@, order@).take(i as int),
                decreases n - i,
            {
                out.push(means[order[i] as usize]);
                assert(out@ =~= ordered_means(means@, order@).take(i + 1));
                i = i + 1;
            }
            assert(out@ =~= ordered_means(means@, order@));
            sorted_means = Some(out);
        }
        proof {
            ordered_bytes_len(rows@, order@, n as nat);
            crate::ordering::numbers_are_ordered(order@, sizes(rows@));
            assert forall|i: int| 0 <= i < n implies #[trigger] holds_row(
                buffer@,
                i,
                rows@[order@[i] as int],
            ) by {
                rows_are_read_back(rows@, order@, n as nat, i);
            }
        }
        self.splat_count = n;
        self.buffer = buffer;
        self.orig_quats = Some(quats);
        self.orig_means = sorted_means;
        self.source_row_indices = order;
    }

    /// Bit patterns of the position of a splat.
    pub fn position(&self, splat: usize) -> (r: [u32; 3])
        requires
            splat < self.splat_count,
            self.buffer@.len() >= ROW_LENGTH * self.splat_count,
        ensures
            r[0] == crate::bytes::le_u32(self.buffer@, 32 * splat),
            r[1] == crate::bytes::le_u32(self.buffer@, 32 * splat + 4),
            r[2] == crate::bytes::le_u32(self.buffer@, 32 * splat + 8),
    {
        let total: usize = self.buffer.len();
        assert(32 * splat + 32 <= total);
        let row: usize = 32 * splat;
        let b: &[u8] = self.buffer.as_slice();
        [le_u32_at(b, row), le_u32_at(b, row + 4), le_u32_at(b, row + 8)]
    }

    /// Bit patterns of the scale of a splat.
    pub fn scale(&self, splat: usize) -> (r: [u32; 3])
        requires
            splat < self.splat_count,
            self.buffer@.len() >= ROW_LENGTH * self.splat_count,
        ensures
            r[0] == crate::bytes::le_u32(self.buffer@, 32 * splat + 12),
            r[1] == crate::bytes::le_u32(self.buffer@, 32 * splat + 16),
            r[2] == crate::bytes::le_u32(self.buffer@, 32 * splat + 20),
    {
        let total: usize = self.buffer.len();
        assert(32 * splat + 32 <= total);
        let row: usize = 32 * splat + 12;
        let b: &[u8] = self.buffer.as_slice();
        [le_u32_at(b, row), le_u32_at(b, row + 4), le_u32_at(b, row + 8)]
    }

    /// Moves a splat: the three numbers of its position are replaced, all other bytes stay.
    pub fn set_position(&mut self, splat: usize, position: [u32; 3])
        requires
            splat < old(self).splat_count,
            old(self).buffer@.len() >= ROW_LENGTH * old(self).splat_count,
        ensures
            final(self).buffer@ == old(self).buffer@.take(32 * splat) + crate::bytes::le_bytes(
                position[0],
            ) + crate::bytes::le_bytes(position[1]) + crate::bytes::le_bytes(position[2])
                + old(self).buffer@.skip(32 * splat + 12),
            final(self).splat_count == old(self).splat_count,
            final(self).tex_data == old(self).tex_data,
            final(self).tex_width == old(self).tex_width,
            final(self).tex_height == old(self).tex_height,
            final(self).orig_means == old(self).orig_means,
            final(self).orig_quats == old(self).orig_quats,
            final(self).source_row_indices == old(self).source_row_indices,
    {
        let total: usize = self.buffer.len();
        assert(32 * splat + 32 <= total);
        let row: usize = 32 * splat;
        let mut words: Vec<u8> = Vec::new();
        crate::bytes::push_le_u32(&mut words, position[0]);
        crate::bytes::push_le_u32(&mut words, position[1]);
        crate::bytes::push_le_u32(&mut words, position[2]);
        let ghost start = self.buffer@;
        let mut k: usize = 0;
        while k < 12
            invariant
                k <= 12,
                words@.len() == 12,
                row + 32 <= total,
                self.buffer@ == start.take(row as int) + words@.take(k as int) + start.skip(row + k),
                start.len() == total,
                self.splat_count == old(self).splat_count,
                self.tex_data == old(self).tex_data,
                self.tex_width == old(self).tex_width,
                self.tex_height == old(self).tex_height,
                self.orig_means == old(self).orig_means,
                self.orig_quats == old(self).orig_quats,
                self.source_row_indices == old(self).source_row_indices,
            decreases 12 - k,
        {
            self.buffer.set(row + k, words[k]);
            k = k + 1;
            assert(self.buffer@ =~= start.take(row as int) + words@.take(k as int) + start.skip(
                row + k,
            ));
        }
        assert(words@.take(12) =~= words@);
        assert(self.buffer@ =~= start.take(row as int) + crate::bytes::le_bytes(position[0])
            + crate::bytes::le_bytes(position[1]) + crate::bytes::le_bytes(position[2])
            + start.skip(row + 12));
    }
}

/// Splats of the first `n` scenes.
pub open spec fn total_splats(scenes: Seq<Scene>, n: nat) -> int
    decreases n,
{
    if n == 0 {
        0
    } else {
        total_splats(scenes, (n - 1) as nat) + scenes[n - 1].splat_count
    }
}

pub open spec fn joined_buffers(scenes: Seq<Scene>, n: nat) -> Seq<u8>
    decreases n,
{
    if n == 0 {
        Seq::empty()
    } else {
        joined_buffers(scenes, (n - 1) as nat) + scenes[n - 1].buffer@
    }
}

pub open spec fn joined_rows(scenes: Seq<Scene>, n: nat) -> Seq<u32>
    decreases n,
{
    if n == 0 {
        Seq::empty()
    } else {
        joined_rows(scenes, (n - 1) as nat) + effective_rows(
            scenes[n - 1].splat_count,
            scenes[n - 1].source_row_indices@,
        )
    }
}

proof fn joined_rows_len(scenes: Seq<Scene>, n: nat)
    requires
        n <= scenes.len(),
    ensures
        joined_rows(scenes, n).len() == total_splats(scenes, n),
    decreases n,
{
    if n > 0 {
        joined_rows_len(scenes, (n - 1) as nat);
    }
}

proof fn total_splats_grows(scenes: Seq<Scene>, m: nat, n: nat)
    requires
        m <= n <= scenes.len(),
    ensures
        0 <= total_splats(scenes, m) <= total_splats(scenes, n),
    decreases n,
{
    if m < n {
        total_splats_grows(scenes, m, (n - 1) as nat);
    } else if n > 0 {
        total_splats_grows(scenes, (m - 1) as nat, (n - 1) as nat);
    }
}

/// Original positions of the first `n` scenes, joined one after the other.
pub open spec fn joined_means(scenes: Seq<Scene>, n: nat) -> Option<Seq<[u32; 3]>>
    decreases n,
{
    if n == 0 {
        None
    } else {
        joined_lists(
            joined_means(scenes, (n - 1) as nat),
            total_splats(scenes, (n - 1) as nat) == 0,
            list_view(scenes[n - 1].orig_means),
        )
    }
}

/// Original rotations of the first `n` scenes, joined one after the other.
pub open spec fn joined_quats(scenes: Seq<Scene>, n: nat) -> Option<Seq<[u32; 4]>>
    decreases n,
{
    if n == 0 {
        None
    } else {
        joined_lists(
            joined_quats(scenes, (n - 1) as nat),
            total_splats(scenes, (n - 1) as nat) == 0,
            list_view(scenes[n - 1].orig_quats),
        )
    }
}

/// Joins scenes into one, without a texture.
pub fn merge_scene(scenes: &Vec<Scene>) -> (r: Scene)
    requires
        total_splats(scenes@, scenes@.len()) <= u32::MAX,
    ensures
        r.splat_count == total_splats(scenes@, scenes@.len()),
        r.buffer@ == joined_buffers(scenes@, scenes@.len()),
        r.source_row_indices@ == joined_rows(scenes@, scenes@.len()),
        list_view(r.orig_means) == joined_means(scenes@, scenes@.len()),
        list_view(r.orig_quats) == joined_quats(scenes@, scenes@.len()),
        r.tex_data@.len() == 0,
        r.tex_width == 0,
        r.tex_height == 0,
{
    let mut merged: Scene = Scene::new();
    let mut i: usize = 0;
    assert(merged.buffer@ =~= joined_buffers(scenes@, 0));
    assert(merged.source_row_indices@ =~= joined_rows(scenes@, 0));
    while i < scenes.len()
        invariant
            i <= scenes@.len(),
            total_splats(scenes@, scenes@.len()) <= u32::MAX,
            merged.splat_count == total_splats(scenes@, i as nat),
            merged.buffer@ == joined_buffers(scenes@, i as nat),
            merged.source_row_indices@ == joined_rows(scenes@, i as nat),
            list_view(merged.orig_means) == joined_means(scenes@, i as nat),
            list_view(merged.orig_quats) == joined_quats(scenes@, i as nat),
            merged.tex_data@.len() == 0,
            merged.tex_width == 0,
            merged.tex_height == 0,
        decreases scenes@.len() - i,
    {
        proof {
            total_splats_grows(scenes@, (i + 1) as nat, scenes@.len());
            joined_rows_len(scenes@, i as nat);
        }
        merged.merge(&scenes[i]);
        i = i + 1;
    }
    merged
}

/// Joining keeps one 32-byte row and one source row per splat.
pub proof fn merging_keeps_rows_aligned(scenes: Seq<Scene>, n: nat)
    requires
        n <= scenes.len(),
        forall|i: int| 0 <= i < n ==> (#[trigger] scenes[i]).rows_complete(),
    ensures
        joined_buffers(scenes, n).len() == 32 * total_splats(scenes, n),
        joined_rows(scenes, n).len() == total_splats(scenes, n),
    decreases n,
{
    if n > 0 {
        merging_keeps_rows_aligned(scenes, (n - 1) as nat);
        assert(scenes[n - 1].rows_complete());
    }
}

} // verus!
