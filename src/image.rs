//! CPU-side images: tightly packed RGBA8 pixels, row by row.
use vstd::prelude::*;

verus! {

/// One pixel of eight bits per channel.
#[derive(Clone, Copy, Debug, PartialEq, Eq, Structural)]
pub struct RGBAPixel {
    pub r: u8,
    pub g: u8,
    pub b: u8,
    pub a: u8,
}

/// An image of `width * height` pixels, stored row after row.
pub struct RGBAImage {
    pub width: u32,
    pub height: u32,
    pub data: Vec<RGBAPixel>,
}

/// Channel `c` (0 = r, 1 = g, 2 = b, 3 = a) of a pixel.
pub open spec fn channel(p: RGBAPixel, c: int) -> u8 {
    if c == 0 {
        p.r
    } else if c == 1 {
        p.g
    } else if c == 2 {
        p.b
    } else {
        p.a
    }
}

/// The tightly packed bytes of a row-major pixel sequence: four per pixel,
/// in the order r, g, b, a.
pub open spec fn bytes_of(pixels: Seq<RGBAPixel>) -> Seq<u8> {
    Seq::new(4 * pixels.len(), |j: int| channel(pixels[j / 4], j % 4))
}

/// The pixel that starts at byte `4 * i`.
pub open spec fn pixel_at(bytes: Seq<u8>, i: int) -> RGBAPixel {
    RGBAPixel { r: bytes[4 * i], g: bytes[4 * i + 1], b: bytes[4 * i + 2], a: bytes[4 * i + 3] }
}

/// The pixels of tightly packed RGBA8 bytes.
pub open spec fn pixels_of(bytes: Seq<u8>) -> Seq<RGBAPixel> {
    Seq::new(bytes.len() / 4, |i: int| pixel_at(bytes, i))
}

proof fn lemma_div_mod_4(i: int, k: int)
    requires
        0 <= i,
        0 <= k < 4,
    ensures
        (4 * i + k) / 4 == i,
        (4 * i + k) % 4 == k,
{
    assert((4 * i + k) / 4 == i) by (nonlinear_arith)
        requires
            0 <= i,
            0 <= k < 4,
    ;
    assert((4 * i + k) % 4 == k) by (nonlinear_arith)
        requires
            0 <= i,
            0 <= k < 4,
    ;
}

/// Packing pixels into bytes and reading them back gives the same pixels,
/// and reading packed bytes and packing them again gives the same bytes.
pub proof fn lemma_rgba8_round_trip(pixels: Seq<RGBAPixel>, bytes: Seq<u8>)
    requires
        bytes.len() % 4 == 0,
    ensures
        pixels_of(bytes_of(pixels)) == pixels,
        bytes_of(pixels_of(bytes)) == bytes,
{
    let b = bytes_of(pixels);
    assert(b.len() / 4 == pixels.len()) by {
        lemma_div_mod_4(pixels.len() as int, 0);
    }
    assert forall|i: int| 0 <= i < pixels.len() implies #[trigger] pixels_of(b)[i] == pixels[i] by {
        lemma_div_mod_4(i, 0);
        lemma_div_mod_4(i, 1);
        lemma_div_mod_4(i, 2);
        lemma_div_mod_4(i, 3);
        assert(4 * i + 3 < 4 * pixels.len()) by (nonlinear_arith)
            requires
                0 <= i < pixels.len(),
        ;
    }
    assert(pixels_of(b) =~= pixels);
    let p = pixels_of(bytes);
    let n = bytes.len() / 4;
    assert(4 * n == bytes.len()) by (nonlinear_arith)
        requires
            n == bytes.len() / 4,
            bytes.len() % 4 == 0,
    {
        vstd::arithmetic::div_mod::lemma_fundamental_div_mod(bytes.len() as int, 4);
    }
    assert forall|j: int| 0 <= j < bytes.len() implies #[trigger] bytes_of(p)[j] == bytes[j] by {
        let i = j / 4;
        let k = j % 4;
        vstd::arithmetic::div_mod::lemma_fundamental_div_mod(j, 4);
        assert(0 <= k < 4);
        assert(0 <= i < n) by (nonlinear_arith)
            requires
                j == 4 * i + k,
                0 <= k < 4,
                0 <= j < 4 * n,
        ;
    }
    assert(bytes_of(p) =~= bytes);
}

impl RGBAImage {
    /// Every pixel of the extent is present.
    pub open spec fn wf(&self) -> bool {
        self.data@.len() == self.width as int * self.height as int
    }

    /// Index of pixel (x, y) in the row-major data.
    pub open spec fn index_of(&self, x: int, y: int) -> int {
        y * self.width + x
    }

    /// Whether every pixel of the extent is present.
    pub fn is_valid(&self) -> (r: bool)
        ensures
            r == self.wf(),
    {
        proof {
            assert((self.width as int) * (self.height as int) <= u64::MAX) by (nonlinear_arith)
                requires
                    self.width <= u32::MAX,
                    self.height <= u32::MAX,
            ;
        }
        (self.width as u64) * (self.height as u64) == self.data.len() as u64
    }

    /// The pixel in column `x` of row `y`.
    pub fn get_pixel(&self, x: u32, y: u32) -> (r: RGBAPixel)
        requires
            self.index_of(x as int, y as int) < self.data@.len(),
        ensures
            r == self.data@[self.index_of(x as int, y as int)],
    {
        // The index is below the length, which fits in usize.
        let len: usize = self.data.len();
        proof {
            assert(0 <= (y as int) * (self.width as int) <= (y as int) * (self.width as int) + (
            x as int) < len) by (nonlinear_arith)
                requires
                    (y as int) * (self.width as int) + (x as int) < len,
                    y >= 0,
                    x >= 0,
                    self.width >= 0,
            ;
        }
        let row: usize = (y as usize) * (self.width as usize);
        let idx: usize = row + (x as usize);
        self.data[idx]
    }

    /// The image held by tightly packed RGBA8 bytes, `width * height * 4`
    /// of them (what an image decoder hands over); `None` when the length
    /// does not match the extent.
    pub fn from_rgba8(width: u32, height: u32, bytes: &Vec<u8>) -> (r: Option<RGBAImage>)
        ensures
            r is Some <==> bytes@.len() == 4 * (width as int * height as int),
            r is Some ==> {
                let img = r->Some_0;
                &&& img.wf()
                &&& img.width == width
                &&& img.height == height
                &&& img.data@ == pixels_of(bytes@)
            },
    {
        let len: usize = bytes.len();
        proof {
            assert((width as int) * (height as int) <= u64::MAX) by (nonlinear_arith)
                requires
                    width <= u32::MAX,
                    height <= u32::MAX,
            ;
        }
        let n: u64 = (width as u64) * (height as u64);
        if (len % 4) != 0 || n != (len / 4) as u64 {
            return None;
        }
        let count: usize = len / 4;
        let mut data: Vec<RGBAPixel> = Vec::with_capacity(count);
        let mut i: usize = 0;
        while i < count
            invariant
                count == bytes@.len() / 4,
                len == bytes@.len(),
                i <= count,
                data@.len() == i,
                forall|j: int| 0 <= j < i ==> #[trigger] data@[j] == pixel_at(bytes@, j),
            decreases count - i,
        {
            proof {
                assert(4 * i + 3 < bytes@.len()) by (nonlinear_arith)
                    requires
                        i < count,
                        count == bytes@.len() / 4,
                {
                    vstd::arithmetic::div_mod::lemma_fundamental_div_mod(bytes@.len() as int, 4);
                }
            }
            let base: usize = 4 * i;
            data.push(
                RGBAPixel {
                    r: bytes[base],
                    g: bytes[base + 1],
                    b: bytes[base + 2],
                    a: bytes[base + 3],
                },
            );
            i = i + 1;
        }
        proof {
            assert(data@ =~= pixels_of(bytes@));
            vstd::arithmetic::div_mod::lemma_fundamental_div_mod(len as int, 4);
        }
        Some(RGBAImage { width, height, data })
    }

    /// The pixels as tightly packed RGBA8 bytes, row after row: what is
    /// copied into a staging buffer for upload.
    pub fn to_rgba8(&self) -> (r: Vec<u8>)
        requires
            4 * self.data@.len() <= usize::MAX,
        ensures
            r@ == bytes_of(self.data@),
    {
        let mut out: Vec<u8> = Vec::new();
        let mut i: usize = 0;
        while i < self.data.len()
            invariant
                i <= self.data@.len(),
                4 * self.data@.len() <= usize::MAX,
                out@.len() == 4 * i,
                forall|j: int| 0 <= j < 4 * i ==> #[trigger] out@[j] == channel(self.data@[j / 4], j % 4),
            decreases self.data@.len() - i,
        {
            let p = self.data[i];
            let ghost before = out@;
            out.push(p.r);
            out.push(p.g);
            out.push(p.b);
            out.push(p.a);
            proof {
                assert forall|j: int| 0 <= j < 4 * (i + 1) implies #[trigger] out@[j] == channel(
                    self.data@[j / 4],
                    j % 4,
                ) by {
                    if j >= 4 * i {
                        lemma_div_mod_4(i as int, j - 4 * i);
                    }
                }
            }
            i = i + 1;
        }
        proof {
            assert(out@ =~= bytes_of(self.data@));
        }
        out
    }

    /// A `width` by `height` image of transparent black pixels.
    pub fn new(width: u32, height: u32) -> (r: RGBAImage)
        requires
            width as int * height as int <= usize::MAX,
        ensures
            r.wf(),
            r.width == width,
            r.height == height,
            forall|i: int|
                0 <= i < r.data@.len() ==> #[trigger] r.data@[i] == (RGBAPixel {
                    r: 0,
                    g: 0,
                    b: 0,
                    a: 0,
                }),
    {
        let n: usize = (width as usize) * (height as usize);
        let black = RGBAPixel { r: 0, g: 0, b: 0, a: 0 };
        let mut data: Vec<RGBAPixel> = Vec::with_capacity(n);
        let mut i: usize = 0;
        while i < n
            invariant
                i <= n,
                data@.len() == i,
                forall|j: int| 0 <= j < i ==> #[trigger] data@[j] == black,
            decreases n - i,
        {
            data.push(black);
            i = i + 1;
        }
        RGBAImage { width, height, data }
    }
}

} // verus!
