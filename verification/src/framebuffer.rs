use vstd::prelude::*;

use crate::color::{le_bytes, SH8601ColorMode};

verus! {

/// Where the framebuffer bytes live: a buffer the caller owns for the whole program, or
/// one on the heap.
enum FrameStorage<const N: usize> {
    Static(&'static mut [u8; N]),
    Heap(Box<[u8; N]>),
}

/// The pixel memory of the driver: `N` bytes, row after row, each pixel taking
/// `C::bytes_per_pixel()` bytes in little-endian order. `N` always has room for a
/// `WIDTH` x `HEIGHT` screen.
pub struct Framebuffer<C: SH8601ColorMode, const WIDTH: usize, const HEIGHT: usize, const N: usize> {
    data: FrameStorage<N>,
    color: core::marker::PhantomData<C>,
}

impl<C: SH8601ColorMode, const WIDTH: usize, const HEIGHT: usize, const N: usize> View for Framebuffer<
    C,
    WIDTH,
    HEIGHT,
    N,
> {
    type V = Seq<u8>;

    closed spec fn view(&self) -> Seq<u8> {
        self.data@
    }
}

impl<const N: usize> View for FrameStorage<N> {
    type V = Seq<u8>;

    closed spec fn view(&self) -> Seq<u8> {
        match self {
            FrameStorage::Static(a) => a@,
            FrameStorage::Heap(b) => b@,
        }
    }
}

fn storage_bytes_mut<const N: usize>(storage: &mut FrameStorage<N>) -> (s: &mut [u8; N])
    ensures
        s@ == old(storage)@,
        final(storage)@ == final(s)@,
    no_unwind
{
    match storage {
        FrameStorage::Static(a) => &mut **a,
        FrameStorage::Heap(b) => &mut **b,
    }
}

fn storage_write<const N: usize>(storage: &mut FrameStorage<N>, i: usize, v: u8)
    requires
        i < N,
    ensures
        final(storage)@ == old(storage)@.update(i as int, v),
    no_unwind
{
    broadcast use vstd::array::group_array_axioms;

    match storage {
        FrameStorage::Static(a) => {
            a[i] = v;
        },
        FrameStorage::Heap(b) => {
            b[i] = v;
        },
    }
}

/// Whether the point lies on a display of the given size.
pub open spec fn point_on_screen(x: int, y: int, width: int, height: int) -> bool {
    0 <= x < width && 0 <= y < height
}

/// Offset of the first byte of pixel (x, y) in a framebuffer.
pub open spec fn pixel_offset(x: int, y: int, width: int, bpp: int) -> int {
    (y * width + x) * bpp
}

/// The frame after pixel (x, y) has been set to a pixel whose bytes are `bytes`;
/// points off the screen leave the frame as it is.
pub open spec fn frame_with_pixel(
    frame: Seq<u8>,
    x: int,
    y: int,
    width: int,
    height: int,
    bytes: Seq<u8>,
) -> Seq<u8> {
    if point_on_screen(x, y, width, height) {
        let at = pixel_offset(x, y, width, bytes.len() as int);
        frame.take(at) + bytes + frame.skip(at + bytes.len())
    } else {
        frame
    }
}

/// A pixel of a `width` x `height` screen ends within `width * height * bpp` bytes.
pub proof fn lemma_pixel_fits(x: int, y: int, width: int, height: int, bpp: int)
    requires
        point_on_screen(x, y, width, height),
        bpp >= 0,
    ensures
        0 <= pixel_offset(x, y, width, bpp),
        pixel_offset(x, y, width, bpp) + bpp <= width * height * bpp,
{
    assert(0 <= y * width + x) by (nonlinear_arith)
        requires
            0 <= x < width,
            0 <= y < height,
    ;
    assert(y * width + x + 1 <= width * height) by (nonlinear_arith)
        requires
            0 <= x < width,
            0 <= y < height,
    ;
    assert(0 <= (y * width + x) * bpp) by (nonlinear_arith)
        requires
            0 <= y * width + x,
            bpp >= 0,
    ;
    assert((y * width + x) * bpp + bpp <= width * height * bpp) by (nonlinear_arith)
        requires
            y * width + x + 1 <= width * height,
            bpp >= 0,
    ;
}

impl<C: SH8601ColorMode, const WIDTH: usize, const HEIGHT: usize, const N: usize> Framebuffer<
    C,
    WIDTH,
    HEIGHT,
    N,
> {
    /// `N` bytes hold every pixel of the screen.
    pub open spec fn fits() -> bool {
        WIDTH * HEIGHT * C::spec_bytes_per_pixel() <= N
    }

    /// Every framebuffer has room for the screen.
    #[verifier::type_invariant]
    pub open spec fn has_room_for_screen(self) -> bool {
        Self::fits()
    }

    /// A framebuffer holds `N` bytes.
    pub proof fn lemma_len(&self)
        ensures
            self@.len() == N,
    {
        broadcast use vstd::array::group_array_axioms;
        match &self.data {
            FrameStorage::Static(a) => {
                assert(a@.len() == N);
            },
            FrameStorage::Heap(b) => {
                assert(b@.len() == N);
            },
        }
    }

    /// Whether `N` bytes have room for a `WIDTH` x `HEIGHT` screen of `C` pixels.
    pub fn has_room() -> (b: bool)
        ensures
            b == Self::fits(),
    {
        let bpp = C::bytes_per_pixel();
        // WIDTH * HEIGHT * bpp <= N, checked without overflow
        if HEIGHT != 0 && WIDTH > N / HEIGHT {
            proof {
                lemma_product_exceeds(WIDTH as int, HEIGHT as int, bpp as int, N as int);
            }
            return false;
        }
        proof {
            lemma_area_fits(WIDTH as int, HEIGHT as int, N as int);
        }
        let area = WIDTH * HEIGHT;
        if area > N / bpp {
            proof {
                lemma_product_exceeds2(area as int, bpp as int, N as int);
            }
            return false;
        }
        proof {
            lemma_product_fits(area as int, bpp as int, N as int);
        }
        true
    }

    /// Creates a framebuffer on the heap with every byte zero.
    pub fn new() -> (fb: Self)
        requires
            Self::fits(),
        ensures
            fb@ == Seq::new(N as nat, |i: int| 0u8),
    {
        broadcast use vstd::array::group_array_axioms;

        let data = [0u8; N];
        Framebuffer { data: FrameStorage::Heap(Box::new(data)), color: core::marker::PhantomData }
    }

    /// Uses a buffer that lives for the whole program as the framebuffer; no allocation.
    pub fn from_static(data: &'static mut [u8; N]) -> (fb: Self)
        requires
            Self::fits(),
        ensures
            fb@ == old(data)@,
    {
        Framebuffer { data: FrameStorage::Static(data), color: core::marker::PhantomData }
    }

    /// The raw framebuffer bytes.
    pub fn as_slice(&self) -> (s: &[u8])
        ensures
            s@ == self@,
    {
        broadcast use vstd::array::group_array_axioms;

        match &self.data {
            FrameStorage::Static(a) => vstd::array::array_as_slice(&**a),
            FrameStorage::Heap(b) => vstd::array::array_as_slice(&**b),
        }
    }

    /// Mutable access to the raw framebuffer bytes: what is written through the reference
    /// is the new framebuffer content.
    pub fn as_mut_slice(&mut self) -> (s: &mut [u8; N])
        ensures
            s@ == old(self)@,
            final(self)@ == final(s)@,
    {
        proof {
            use_type_invariant(&*self);
        }
        storage_bytes_mut(&mut self.data)
    }

    /// Sets byte `i` of the framebuffer.
    fn write_byte(&mut self, i: usize, v: u8)
        requires
            i < N,
        ensures
            final(self)@ == old(self)@.update(i as int, v),
    {
        proof {
            use_type_invariant(&*self);
        }
        storage_write(&mut self.data, i, v);
    }

    /// Sets the pixel at (x, y) to `color`. Points off the screen are ignored.
    pub fn set_pixel(&mut self, x: i32, y: i32, color: C)
        ensures
            final(self)@ == frame_with_pixel(
                old(self)@,
                x as int,
                y as int,
                WIDTH as int,
                HEIGHT as int,
                le_bytes(color.spec_storage(), C::spec_bytes_per_pixel()),
            ),
    {
        let ghost bytes_spec = le_bytes(color.spec_storage(), C::spec_bytes_per_pixel());
        proof {
            use_type_invariant(&*self);
            self.lemma_len();
            lemma_le_bytes_len(color.spec_storage(), C::spec_bytes_per_pixel());
        }
        if x < 0 || y < 0 {
            return;
        }
        let xu = x as usize;
        let yu = y as usize;
        if xu >= WIDTH || yu >= HEIGHT {
            return;
        }
        let bpp = C::bytes_per_pixel();
        proof {
            lemma_pixel_fits(xu as int, yu as int, WIDTH as int, HEIGHT as int, bpp as int);
            assert(yu * WIDTH + xu <= WIDTH * HEIGHT) by (nonlinear_arith)
                requires
                    yu < HEIGHT,
                    xu < WIDTH,
            ;
            assert(WIDTH * HEIGHT <= WIDTH * HEIGHT * bpp) by (nonlinear_arith)
                requires
                    bpp >= 1,
            ;
        }
        let index = (yu * WIDTH + xu) * bpp;
        let bytes = color.to_le_bytes();
        let ghost old_frame = self@;
        let mut i: usize = 0;
        while i < bpp
            invariant
                i <= bpp,
                bpp == C::spec_bytes_per_pixel(),
                bytes@ == bytes_spec,
                bytes@.len() == bpp,
                index + bpp <= N,
                self@.len() == N,
                old_frame.len() == N,
                forall|j: int|
                    0 <= j < N ==> #[trigger] self@[j] == if index <= j < index + i {
                        bytes@[j - index]
                    } else {
                        old_frame[j]
                    },
            decreases bpp - i,
        {
            self.write_byte(index + i, bytes[i]);
            i = i + 1;
        }
        assert(self@ =~= old_frame.take(index as int) + bytes_spec + old_frame.skip(
            index + bpp,
        ));
    }
}

/// `le_bytes(v, n)` has `n` bytes.
pub proof fn lemma_le_bytes_len(value: nat, n: nat)
    ensures
        le_bytes(value, n).len() == n,
    decreases n,
{
    if n > 0 {
        lemma_le_bytes_len(value / 256, (n - 1) as nat);
    }
}

proof fn lemma_area_fits(w: int, h: int, n: int)
    requires
        w >= 0,
        h >= 0,
        n >= 0,
        h == 0 || w <= n / h,
    ensures
        w * h <= n,
{
    if h != 0 {
        vstd::arithmetic::div_mod::lemma_fundamental_div_mod(n, h);
        assert(w * h <= (n / h) * h) by (nonlinear_arith)
            requires
                w <= n / h,
                h > 0,
        ;
        vstd::arithmetic::mul::lemma_mul_is_commutative(h, n / h);
        vstd::arithmetic::div_mod::lemma_mod_pos_bound(n, h);
    }
}

proof fn lemma_product_exceeds(w: int, h: int, bpp: int, n: int)
    requires
        w >= 0,
        h > 0,
        n >= 0,
        bpp >= 1,
        w > n / h,
    ensures
        w * h * bpp > n,
{
    vstd::arithmetic::div_mod::lemma_fundamental_div_mod(n, h);
    vstd::arithmetic::div_mod::lemma_mod_pos_bound(n, h);
    assert(w * h >= (n / h + 1) * h) by (nonlinear_arith)
        requires
            w >= n / h + 1,
            h > 0,
    ;
    assert((n / h + 1) * h == h * (n / h) + h) by (nonlinear_arith);
    assert(w * h * bpp >= w * h) by (nonlinear_arith)
        requires
            w * h >= 0,
            bpp >= 1,
    ;
}

proof fn lemma_product_exceeds2(a: int, bpp: int, n: int)
    requires
        a >= 0,
        bpp > 0,
        n >= 0,
        a > n / bpp,
    ensures
        a * bpp > n,
{
    vstd::arithmetic::div_mod::lemma_fundamental_div_mod(n, bpp);
    vstd::arithmetic::div_mod::lemma_mod_pos_bound(n, bpp);
    assert(a * bpp >= (n / bpp + 1) * bpp) by (nonlinear_arith)
        requires
            a >= n / bpp + 1,
            bpp > 0,
    ;
    assert((n / bpp + 1) * bpp == bpp * (n / bpp) + bpp) by (nonlinear_arith);
}

proof fn lemma_product_fits(a: int, bpp: int, n: int)
    requires
        a >= 0,
        bpp >= 0,
        n >= 0,
        bpp == 0 || a <= n / bpp,
    ensures
        a * bpp <= n,
{
    if bpp != 0 {
        vstd::arithmetic::div_mod::lemma_fundamental_div_mod(n, bpp);
        vstd::arithmetic::div_mod::lemma_mod_pos_bound(n, bpp);
        assert(a * bpp <= (n / bpp) * bpp) by (nonlinear_arith)
            requires
                a <= n / bpp,
                bpp > 0,
        ;
        vstd::arithmetic::mul::lemma_mul_is_commutative(bpp, n / bpp);
    }
}

} // verus!
