//! A rectangular height field, buildable from a two-bytes-per-pixel
//! texture.

use vstd::prelude::*;

verus! {

/// Raw image data as the asset layer hands it over: dimensions and packed
/// pixel bytes.
pub struct Texture {
    pub width: u32,
    pub height: u32,
    pub data: Vec<u8>,
}

/// Heights indexed by (x, z).
pub struct HeightMap {
    size_x: usize,
    size_z: usize,
    heights: Vec<Vec<u64>>,
}

/// The 16-bit little-endian sample starting at `off`.
pub open spec fn sample16(data: Seq<u8>, off: int) -> int {
    data[off] + 256 * data[off + 1]
}

/// Anything a height can be read out of by integer coordinates.
pub trait Picker {
    fn pick_height(&self, x: usize, z: usize) -> u64;
}

impl Picker for HeightMap {
    /// The stored height, or zero outside the field.
    fn pick_height(&self, x: usize, z: usize) -> u64 {
        if x < self.heights.len() {
            let row = &self.heights[x];
            if z < row.len() {
                return row[z];
            }
        }
        0
    }
}

impl HeightMap {
    /// Structural invariant: a full rectangle.
    pub closed spec fn wf(&self) -> bool {
        &&& self.heights@.len() == self.size_x
        &&& forall|i: int|
            0 <= i < self.heights@.len() ==> (#[trigger] self.heights@[i])@.len() == self.size_z
    }

    pub closed spec fn spec_size_x(&self) -> int {
        self.size_x as int
    }

    pub closed spec fn spec_size_z(&self) -> int {
        self.size_z as int
    }

    /// The height stored at (x, z).
    pub closed spec fn height_at(&self, x: int, z: int) -> int {
        self.heights@[x]@[z] as int
    }

    /// A flat field of the given extent.
    pub fn new(size_x: usize, size_z: usize) -> (r: Self)
        requires
            size_x <= 0x1000,
            size_z <= 0x1000,
        ensures
            r.wf(),
            r.spec_size_x() == size_x,
            r.spec_size_z() == size_z,
            forall|x: int, z: int|
                0 <= x < size_x && 0 <= z < size_z ==> #[trigger] r.height_at(x, z) == 0,
    {
        let mut heights: Vec<Vec<u64>> = Vec::new();
        let mut i: usize = 0;
        while i < size_x
            invariant
                i <= size_x,
                size_z <= 0x1000,
                heights@.len() == i,
                forall|j: int|
                    0 <= j < i ==> (#[trigger] heights@[j])@.len() == size_z,
                forall|j: int, k: int|
                    0 <= j < i && 0 <= k < size_z ==> #[trigger] heights@[j]@[k] == 0,
            decreases size_x - i,
        {
            let mut row: Vec<u64> = Vec::new();
            let mut k: usize = 0;
            while k < size_z
                invariant
                    k <= size_z,
                    row@.len() == k,
                    forall|j: int| 0 <= j < k ==> (#[trigger] row@[j]) == 0,
                decreases size_z - k,
            {
                row.push(0);
                k = k + 1;
            }
            heights.push(row);
            i = i + 1;
        }
        HeightMap { size_x, size_z, heights }
    }

    /// Builds the field from a texture: each height is the pixel's 16-bit
    /// little-endian value scaled by `y_scale`.  The pixel stride is
    /// whatever the data length affords per pixel, at least two bytes.
    pub fn from_texture(texture: &Texture, y_scale: u64) -> (r: Self)
        requires
            1 <= texture.width <= 0x1000,
            1 <= texture.height <= 0x1000,
            texture.data@.len() as int / (texture.width as int) / (texture.height as int) >= 2,
            texture.data@.len() <= 0x1000_0000,
            y_scale <= 0x1_0000_0000,
        ensures
            r.wf(),
            r.spec_size_x() == texture.width,
            r.spec_size_z() == texture.height,
            forall|x: int, z: int|
                0 <= x < texture.width && 0 <= z < texture.height ==> #[trigger] r.height_at(x, z)
                    == y_scale * sample16(
                    texture.data@,
                    (texture.data@.len() as int / (texture.width as int) / (
                    texture.height as int)) * (x * texture.height + z),
                ),
    {
        let size_x = texture.width as usize;
        let size_z = texture.height as usize;
        let bytes_per_pixel = texture.data.len() / size_x / size_z;
        let ghost bpp = bytes_per_pixel as int;
        proof {
            lemma_pixel_bounds(texture.data@.len() as int, size_x as int, size_z as int);
        }
        let mut heights: Vec<Vec<u64>> = Vec::new();
        let mut x: usize = 0;
        while x < size_x
            invariant
                x <= size_x,
                1 <= size_x <= 0x1000,
                1 <= size_z <= 0x1000,
                y_scale <= 0x1_0000_0000,
                bpp == bytes_per_pixel as int,
                2 <= bpp,
                bpp * (size_x * size_z - 1) + 2 <= texture.data@.len(),
                texture.data@.len() <= 0x1000_0000,
                heights@.len() == x,
                forall|j: int|
                    0 <= j < x ==> (#[trigger] heights@[j])@.len() == size_z,
                forall|j: int, k: int|
                    0 <= j < x && 0 <= k < size_z ==> #[trigger] heights@[j]@[k] == y_scale
                        * sample16(texture.data@, bpp * (j * size_z + k)),
            decreases size_x - x,
        {
            let mut row: Vec<u64> = Vec::new();
            let mut z: usize = 0;
            while z < size_z
                invariant
                    x < size_x,
                    z <= size_z,
                    1 <= size_x <= 0x1000,
                    1 <= size_z <= 0x1000,
                    y_scale <= 0x1_0000_0000,
                    bpp == bytes_per_pixel as int,
                    2 <= bpp,
                    bpp * (size_x * size_z - 1) + 2 <= texture.data@.len(),
                    texture.data@.len() <= 0x1000_0000,
                    row@.len() == z,
                    forall|k: int|
                        0 <= k < z ==> (#[trigger] row@[k]) == y_scale * sample16(
                            texture.data@,
                            bpp * (x * size_z + k),
                        ),
                decreases size_z - z,
            {
                proof {
                    lemma_pixel_offset(
                        bpp,
                        size_x as int,
                        size_z as int,
                        x as int,
                        z as int,
                        texture.data@.len() as int,
                    );
                }
                let offset = bytes_per_pixel * (x * size_z + z);
                let value: u64 = texture.data[offset] as u64 + 256 * (texture.data[offset + 1]
                    as u64);
                proof {
                    assert(0 <= y_scale * value <= 0x1_0000_0000 * 0x1_0000) by (nonlinear_arith)
                        requires
                            y_scale <= 0x1_0000_0000,
                            value <= 0xFFFF,
                    ;
                }
                row.push(y_scale * value);
                z = z + 1;
            }
            heights.push(row);
            x = x + 1;
        }
        HeightMap { size_x, size_z, heights }
    }

    /// The height at (x, z).
    pub fn pick(&self, x: usize, z: usize) -> (r: u64)
        requires
            self.wf(),
            x < self.spec_size_x(),
            z < self.spec_size_z(),
        ensures
            r == self.height_at(x as int, z as int),
    {
        self.heights[x][z]
    }
}

proof fn lemma_pixel_bounds(len: int, sx: int, sz: int)
    requires
        1 <= sx <= 0x1000,
        1 <= sz <= 0x1000,
        len / sx / sz >= 2,
        0 <= len <= 0x1000_0000,
    ensures
        (len / sx / sz) * (sx * sz - 1) + 2 <= len,
        2 <= len / sx / sz,
{
    let bpp = len / sx / sz;
    vstd::arithmetic::div_mod::lemma_div_denominator(len, sx, sz);
    vstd::arithmetic::div_mod::lemma_fundamental_div_mod(len, sx * sz);
    vstd::arithmetic::div_mod::lemma_mod_bound(len, sx * sz);
    assert(sx * sz >= 1) by (nonlinear_arith)
        requires
            1 <= sx,
            1 <= sz,
    ;
    assert(bpp * (sx * sz - 1) + 2 <= len) by (nonlinear_arith)
        requires
            bpp == len / (sx * sz),
            len == (sx * sz) * (len / (sx * sz)) + len % (sx * sz),
            len % (sx * sz) >= 0,
            sx * sz >= 1,
            bpp >= 2,
    ;
}

proof fn lemma_pixel_offset(bpp: int, sx: int, sz: int, x: int, z: int, len: int)
    requires
        2 <= bpp,
        1 <= sx <= 0x1000,
        1 <= sz <= 0x1000,
        0 <= x < sx,
        0 <= z < sz,
        bpp * (sx * sz - 1) + 2 <= len,
        len <= 0x1000_0000,
    ensures
        0 <= x * sz + z <= sx * sz - 1,
        sx * sz <= 0x100_0000,
        0 <= bpp * (x * sz + z),
        bpp * (x * sz + z) + 2 <= len,
{
    assert(0 <= x * sz + z <= sx * sz - 1 && sx * sz <= 0x100_0000) by (nonlinear_arith)
        requires
            1 <= sz <= 0x1000,
            1 <= sx <= 0x1000,
            0 <= x < sx,
            0 <= z < sz,
    ;
    assert(bpp * (x * sz + z) <= bpp * (sx * sz - 1) && 0 <= bpp * (x * sz + z))
        by (nonlinear_arith)
        requires
            2 <= bpp,
            0 <= x * sz + z <= sx * sz - 1,
    ;
}

} // verus!
