//! The window that shows a running machine: its frame buffer, its input, and its header.
use crate::process::{find_pid, pid_in, QemuProcess};
use crate::text::{same_text, wrap};
use vstd::arithmetic::div_mod::lemma_fundamental_div_mod;
use vstd::arithmetic::div_mod::lemma_fundamental_div_mod_converse;
use vstd::prelude::*;

verus! {

/// The bytes of a pixel.
pub const PIXEL: u64 = 4;

/// What the display of a machine sends.
#[derive(Debug)]
pub enum FrameMsg {
    Scanout { data: Vec<u8>, width: u32, height: u32, stride: u32, format: u32 },
    Update { x: i32, y: i32, w: i32, h: i32, data: Vec<u8>, stride: u32 },
}

/// The frame buffer of a machine.
#[derive(Debug)]
pub struct FrameState {
    pub data: Vec<u8>,
    pub width: u32,
    pub height: u32,
    pub stride: u32,
    pub format: u32,
}

/// The layouts of a pixel in memory.
#[derive(Clone, Copy, Debug, PartialEq, Eq, Structural)]
pub enum MemoryFormat {
    B8g8r8x8,
    B8g8r8a8,
}

/// The layout that a pixman format code stands for: `a8r8g8b8` carries alpha, and every
/// other code is taken as `x8r8g8b8`.
pub fn gdk_mem_format(pixman: u32) -> (res: MemoryFormat)
    ensures
        res == MemoryFormat::B8g8r8a8 <==> pixman == 0x20208,
{
    match pixman {
        0x20024 => MemoryFormat::B8g8r8x8,
        0x20208 => MemoryFormat::B8g8r8a8,
        _ => MemoryFormat::B8g8r8x8,
    }
}

/// `frame` with `bytes` written over it from position `at` on.
pub open spec fn written(frame: Seq<u8>, at: int, bytes: Seq<u8>) -> Seq<u8> {
    frame.take(at) + bytes + frame.skip(at + bytes.len())
}

/// A rectangle of pixels that replaces part of a frame.
#[verifier::ext_equal]
pub struct Patch {
    pub x: int,
    pub y: int,
    pub w: int,
    pub h: int,
    pub data: Seq<u8>,
    pub stride: int,
}

impl Patch {
    /// Where the bytes of row `row` begin in the patch.
    pub open spec fn source(self, row: int) -> int {
        row * self.stride
    }

    /// Where the bytes of row `row` go in a frame whose rows are `stride` bytes apart.
    pub open spec fn target(self, stride: int, row: int) -> int {
        (self.y + row) * stride + self.x * 4
    }

    /// The patch holds row `row`, and a frame of `size` bytes has room for it.
    pub open spec fn row_fits(self, stride: int, size: int, row: int) -> bool {
        &&& self.source(row) + self.w * 4 <= self.data.len()
        &&& self.target(stride, row) + self.w * 4 <= size
    }

    /// The bytes of row `row`.
    pub open spec fn row_bytes(self, row: int) -> Seq<u8> {
        self.data.subrange(self.source(row), self.source(row) + self.w * 4)
    }

    /// The frame after the first `n` rows have been written, in order; a row that does not
    /// fit is left out.
    pub open spec fn rows_on(self, frame: Seq<u8>, stride: int, n: int) -> Seq<u8>
        decreases n,
    {
        if n <= 0 {
            frame
        } else {
            let before = self.rows_on(frame, stride, n - 1);
            if self.row_fits(stride, frame.len() as int, n - 1) {
                written(before, self.target(stride, n - 1), self.row_bytes(n - 1))
            } else {
                before
            }
        }
    }

    /// The patch lies at a place that a frame can have: no coordinate is negative, unless
    /// the patch has no rows.
    pub open spec fn placed(self) -> bool {
        &&& self.h >= 0
        &&& self.h > 0 ==> self.x >= 0 && self.y >= 0 && self.w >= 0
    }
}

/// The patch that an update message carries.
pub open spec fn patch_of(x: i32, y: i32, w: i32, h: i32, data: Seq<u8>, stride: u32) -> Patch {
    Patch { x: x as int, y: y as int, w: w as int, h: h as int, data, stride: stride as int }
}

/// Writing a row keeps the size of the frame.
proof fn lemma_rows_len(p: Patch, frame: Seq<u8>, stride: int, n: int)
    requires
        p.x >= 0,
        p.y >= 0,
        p.w >= 0,
        p.stride >= 0,
        stride >= 0,
    ensures
        p.rows_on(frame, stride, n).len() == frame.len(),
    decreases n,
{
    if n > 0 {
        lemma_rows_len(p, frame, stride, n - 1);
        lemma_row_start(p, stride, n - 1);
    }
}

/// No row begins before its buffer.
proof fn lemma_row_start(p: Patch, stride: int, row: int)
    requires
        p.x >= 0,
        p.y >= 0,
        p.stride >= 0,
        stride >= 0,
        row >= 0,
    ensures
        p.source(row) >= 0,
        p.target(stride, row) >= 0,
{
    assert(row * p.stride >= 0) by (nonlinear_arith)
        requires
            row >= 0,
            p.stride >= 0,
    ;
    assert((p.y + row) * stride >= 0) by (nonlinear_arith)
        requires
            p.y + row >= 0,
            stride >= 0,
    ;
}

/// Writes an update into a frame: row by row from the top, leaving out each row that the
/// update does not hold or for which the frame has no room.
pub fn apply_update(
    fs: &mut FrameState,
    x: i32,
    y: i32,
    w: i32,
    h: i32,
    data: &[u8],
    ustride: u32,
)
    requires
        patch_of(x, y, w, h, data@, ustride).placed(),
    ensures
        final(fs).data@ == patch_of(x, y, w, h, data@, ustride).rows_on(
            old(fs).data@,
            old(fs).stride as int,
            h as int,
        ),
        final(fs).width == old(fs).width,
        final(fs).height == old(fs).height,
        final(fs).stride == old(fs).stride,
        final(fs).format == old(fs).format,
{
    let ghost p = patch_of(x, y, w, h, data@, ustride);
    let ghost frame = fs.data@;
    let ghost stride = fs.stride as int;
    let held: u64 = data.len() as u64;
    let size: u64 = fs.data.len() as u64;
    let mut row: i32 = 0;
    while row < h
        invariant
            0 <= row <= h,
            h > 0 ==> x >= 0 && y >= 0 && w >= 0,
            p == patch_of(x, y, w, h, data@, ustride),
            fs.stride == stride,
            fs.stride == old(fs).stride,
            fs.width == old(fs).width,
            fs.height == old(fs).height,
            fs.format == old(fs).format,
            held == data@.len(),
            size == frame.len(),
            held <= usize::MAX,
            size <= usize::MAX,
            fs.data@.len() == frame.len(),
            fs.data@ == p.rows_on(frame, stride, row as int),
        decreases h - row,
    {
        proof {
            lemma_row_start(p, stride, row as int);
            lemma_rows_len(p, frame, stride, row as int);
            assert(row * ustride <= 0x7fff_ffff * 0xffff_ffff) by (nonlinear_arith)
                requires
                    0 <= row <= 0x7fff_ffff,
                    0 <= ustride <= 0xffff_ffff,
            ;
            assert((y + row) * stride <= 0xffff_fffd * 0xffff_ffff) by (nonlinear_arith)
                requires
                    0 <= y + row <= 0xffff_fffd,
                    0 <= stride <= 0xffff_ffff,
            ;
        }
        let src: u64 = row as u64 * ustride as u64;
        let dst: u64 = (y as u64 + row as u64) * fs.stride as u64 + x as u64 * PIXEL;
        let len: u64 = w as u64 * PIXEL;
        if src + len <= held && dst + len <= size {
            let ghost before = fs.data@;
            let mut k: u64 = 0;
            while k < len
                invariant
                    k <= len,
                    src + len <= held,
                    dst + len <= size,
                    held == data@.len(),
                    size == before.len(),
                    fs.data@.len() == before.len(),
                    held <= usize::MAX,
                    size <= usize::MAX,
                    fs.stride == stride,
                    fs.stride == old(fs).stride,
                    fs.width == old(fs).width,
                    fs.height == old(fs).height,
                    fs.format == old(fs).format,
                    forall|q: int|
                        0 <= q < before.len() ==> #[trigger] fs.data@[q] == (if dst <= q < dst + k {
                            data@[src + q - dst]
                        } else {
                            before[q]
                        }),
                decreases len - k,
            {
                let from: usize = (src + k) as usize;
                let to: usize = (dst + k) as usize;
                fs.data.set(to, data[from]);
                k = k + 1;
            }
            proof {
                assert(fs.data@ =~= written(before, dst as int, p.row_bytes(row as int)));
            }
        }
        row = row + 1;
    }
}

/// Byte `q` of a frame of `size` bytes is one that row `row` of the patch writes.
pub open spec fn row_writes(p: Patch, stride: int, size: int, row: int, q: int) -> bool {
    &&& 0 <= row < p.h
    &&& p.row_fits(stride, size, row)
    &&& p.target(stride, row) <= q < p.target(stride, row) + p.w * 4
}

/// Byte `q` of a frame of `size` bytes is one that the patch writes.
pub open spec fn writes(p: Patch, stride: int, size: int, q: int) -> bool {
    exists|row: int| #[trigger] row_writes(p, stride, size, row, q)
}

/// What the first `n` rows of the patch make of byte `q`, which was `b`.
spec fn byte_after(p: Patch, b: u8, stride: int, size: int, q: int, n: int) -> u8
    decreases n,
{
    if n <= 0 {
        b
    } else if row_writes(p, stride, size, n - 1, q) {
        p.data[p.source(n - 1) + q - p.target(stride, n - 1)]
    } else {
        byte_after(p, b, stride, size, q, n - 1)
    }
}

/// The rows of a patch, byte by byte.
proof fn lemma_rows_bytes(p: Patch, frame: Seq<u8>, stride: int, n: int, q: int)
    requires
        p.placed(),
        p.stride >= 0,
        stride >= 0,
        0 <= n <= p.h,
        0 <= q < frame.len(),
    ensures
        p.rows_on(frame, stride, n).len() == frame.len(),
        p.rows_on(frame, stride, n)[q] == byte_after(
            p,
            frame[q],
            stride,
            frame.len() as int,
            q,
            n,
        ),
    decreases n,
{
    if n > 0 {
        let row = n - 1;
        lemma_rows_bytes(p, frame, stride, row, q);
        lemma_row_start(p, stride, row);
        if p.row_fits(stride, frame.len() as int, row) {
            let before = p.rows_on(frame, stride, row);
            let at = p.target(stride, row);
            let bytes = p.row_bytes(row);
            assert(bytes.len() == p.w * 4);
            if at <= q < at + p.w * 4 {
                assert(written(before, at, bytes)[q] == bytes[q - at]);
            } else {
                assert(written(before, at, bytes)[q] == before[q]);
            }
        }
    }
}

/// A byte that the rows write is theirs, and any other byte stays.
proof fn lemma_byte_after(p: Patch, b: u8, c: u8, stride: int, size: int, q: int, n: int)
    requires
        0 <= n <= p.h,
    ensures
        (exists|row: int| row < n && #[trigger] row_writes(p, stride, size, row, q)) ==> byte_after(
            p,
            b,
            stride,
            size,
            q,
            n,
        ) == byte_after(p, c, stride, size, q, n),
        (forall|row: int| row < n ==> !#[trigger] row_writes(p, stride, size, row, q))
            ==> byte_after(p, b, stride, size, q, n) == b,
    decreases n,
{
    if n > 0 && !row_writes(p, stride, size, n - 1, q) {
        lemma_byte_after(p, b, c, stride, size, q, n - 1);
        if exists|row: int| row < n && #[trigger] row_writes(p, stride, size, row, q) {
            let row = choose|row: int| row < n && #[trigger] row_writes(p, stride, size, row, q);
            assert(row < n - 1);
        }
    }
}

/// The last row that writes a byte decides it.
proof fn lemma_last_row(p: Patch, b: u8, stride: int, size: int, q: int, n: int, row: int)
    requires
        0 <= n <= p.h,
        row < n,
        row_writes(p, stride, size, row, q),
        forall|later: int| row < later < n ==> !#[trigger] row_writes(p, stride, size, later, q),
    ensures
        byte_after(p, b, stride, size, q, n) == p.data[p.source(row) + q - p.target(stride, row)],
    decreases n,
{
    if row < n - 1 {
        assert(!row_writes(p, stride, size, n - 1, q));
        lemma_last_row(p, b, stride, size, q, n - 1, row);
    }
}

/// An update changes exactly the bytes that its rows write, and of rows that write the same
/// byte the last one is seen. A row that the update does not hold, or for which the frame
/// has no room, changes nothing.
pub proof fn update_shows_its_rows(p: Patch, frame: Seq<u8>, stride: int)
    requires
        p.placed(),
        p.stride >= 0,
        stride >= 0,
    ensures
        p.rows_on(frame, stride, p.h).len() == frame.len(),
        forall|q: int|
            0 <= q < frame.len() && !writes(p, stride, frame.len() as int, q)
                ==> #[trigger] p.rows_on(frame, stride, p.h)[q] == frame[q],
        forall|q: int, row: int|
            0 <= q < frame.len() && #[trigger] row_writes(p, stride, frame.len() as int, row, q)
                && (forall|later: int|
                row < later ==> !#[trigger] row_writes(p, stride, frame.len() as int, later, q))
                ==> p.rows_on(frame, stride, p.h)[q] == p.data[p.source(row) + q - p.target(
                stride,
                row,
            )],
{
    let size = frame.len() as int;
    update_keeps_the_size(p, frame, stride);
    assert forall|q: int| 0 <= q < size && !writes(p, stride, size, q) implies #[trigger] p.rows_on(
        frame,
        stride,
        p.h,
    )[q] == frame[q] by {
        lemma_rows_bytes(p, frame, stride, p.h, q);
        assert forall|row: int| row < p.h implies !#[trigger] row_writes(
            p,
            stride,
            size,
            row,
            q,
        ) by {
            if row_writes(p, stride, size, row, q) {
                assert(writes(p, stride, size, q));
            }
        }
        lemma_byte_after(p, frame[q], frame[q], stride, size, q, p.h);
    }
    assert forall|q: int, row: int|
        0 <= q < size && #[trigger] row_writes(p, stride, size, row, q) && (forall|later: int|
            row < later ==> !#[trigger] row_writes(p, stride, size, later, q)) implies p.rows_on(
        frame,
        stride,
        p.h,
    )[q] == p.data[p.source(row) + q - p.target(stride, row)] by {
        lemma_rows_bytes(p, frame, stride, p.h, q);
        lemma_last_row(p, frame[q], stride, size, q, p.h, row);
    }
}

/// The byte of row `r` and column `c` of a frame lies in the rectangle of the patch.
pub open spec fn covers(p: Patch, r: int, c: int) -> bool {
    p.y <= r < p.y + p.h && p.x * 4 <= c < p.x * 4 + p.w * 4
}

/// One row of a patch lies in one row of the frame.
proof fn lemma_row_place(p: Patch, stride: int, row: int, q: int)
    requires
        p.x >= 0,
        p.y >= 0,
        p.w >= 0,
        0 < stride,
        p.x * 4 + p.w * 4 <= stride,
        0 <= row,
        0 <= q,
    ensures
        p.target(stride, row) <= q < p.target(stride, row) + p.w * 4 <==> q / stride == p.y + row
            && p.x * 4 <= q % stride < p.x * 4 + p.w * 4,
        q / stride == p.y + row ==> q - p.target(stride, row) == q % stride - p.x * 4,
{
    let at = (p.y + row) * stride;
    lemma_fundamental_div_mod(q, stride);
    assert(stride * (p.y + row) == at) by (nonlinear_arith)
        requires
            at == (p.y + row) * stride,
    ;
    if at <= q < at + stride {
        lemma_fundamental_div_mod_converse(q, stride, p.y + row, q - at);
    }
}

/// A byte that the patch writes lies in its rectangle.
proof fn lemma_writes_covered(p: Patch, stride: int, size: int, q: int)
    requires
        p.placed(),
        0 < stride,
        p.x * 4 + p.w * 4 <= stride,
        0 <= q < size,
    ensures
        writes(p, stride, size, q) <==> covers(p, q / stride, q % stride) && p.row_fits(
            stride,
            size,
            q / stride - p.y,
        ),
{
    let own = q / stride - p.y;
    if writes(p, stride, size, q) {
        let row = choose|row: int| #[trigger] row_writes(p, stride, size, row, q);
        lemma_row_place(p, stride, row, q);
    }
    if covers(p, q / stride, q % stride) && p.row_fits(stride, size, own) {
        lemma_row_place(p, stride, own, q);
        assert(row_writes(p, stride, size, own, q));
    }
}

/// No later row writes a byte of another row.
proof fn lemma_own_row(p: Patch, stride: int, size: int, q: int)
    requires
        p.placed(),
        0 < stride,
        p.x * 4 + p.w * 4 <= stride,
        0 <= q < size,
        covers(p, q / stride, q % stride),
        p.row_fits(stride, size, q / stride - p.y),
    ensures
        row_writes(p, stride, size, q / stride - p.y, q),
        forall|later: int|
            q / stride - p.y < later ==> !#[trigger] row_writes(p, stride, size, later, q),
        q - p.target(stride, q / stride - p.y) == q % stride - p.x * 4,
{
    let own = q / stride - p.y;
    lemma_row_place(p, stride, own, q);
    assert forall|later: int| own < later implies !#[trigger] row_writes(
        p,
        stride,
        size,
        later,
        q,
    ) by {
        if row_writes(p, stride, size, later, q) {
            lemma_row_place(p, stride, later, q);
        }
    }
}

/// One byte of a frame after an update that lies within its width.
proof fn lemma_rectangle_byte(p: Patch, frame: Seq<u8>, stride: int, q: int)
    requires
        p.placed(),
        p.stride >= 0,
        0 < stride,
        p.x * 4 + p.w * 4 <= stride,
        0 <= q < frame.len(),
    ensures
        p.rows_on(frame, stride, p.h)[q] == (if covers(p, q / stride, q % stride) && p.row_fits(
            stride,
            frame.len() as int,
            q / stride - p.y,
        ) {
            p.data[p.source(q / stride - p.y) + q % stride - p.x * 4]
        } else {
            frame[q]
        }),
{
    let size = frame.len() as int;
    lemma_writes_covered(p, stride, size, q);
    update_shows_its_rows(p, frame, stride);
    if covers(p, q / stride, q % stride) && p.row_fits(stride, size, q / stride - p.y) {
        lemma_own_row(p, stride, size, q);
        assert(row_writes(p, stride, size, q / stride - p.y, q));
    }
}

/// An update that lies within the width of a frame changes the frame exactly in its
/// rectangle, and there in the rows that fit: these show the update, and everything else
/// what was shown before.
pub proof fn update_shows_in_its_rectangle(p: Patch, frame: Seq<u8>, stride: int)
    requires
        p.placed(),
        p.stride >= 0,
        0 < stride,
        p.x * 4 + p.w * 4 <= stride,
    ensures
        p.rows_on(frame, stride, p.h).len() == frame.len(),
        forall|q: int|
            0 <= q < frame.len() ==> #[trigger] p.rows_on(frame, stride, p.h)[q] == (if covers(
                p,
                q / stride,
                q % stride,
            ) && p.row_fits(stride, frame.len() as int, q / stride - p.y) {
                p.data[p.source(q / stride - p.y) + q % stride - p.x * 4]
            } else {
                frame[q]
            }),
{
    let size = frame.len() as int;
    update_keeps_the_size(p, frame, stride);
    assert forall|q: int| 0 <= q < size implies #[trigger] p.rows_on(frame, stride, p.h)[q] == (
    if covers(p, q / stride, q % stride) && p.row_fits(stride, size, q / stride - p.y) {
        p.data[p.source(q / stride - p.y) + q % stride - p.x * 4]
    } else {
        frame[q]
    }) by {
        lemma_rectangle_byte(p, frame, stride, q);
    }
}

/// An update that is made twice is one update.
pub proof fn update_twice_is_once(p: Patch, frame: Seq<u8>, stride: int)
    requires
        p.placed(),
        p.stride >= 0,
        stride >= 0,
    ensures
        p.rows_on(p.rows_on(frame, stride, p.h), stride, p.h) == p.rows_on(frame, stride, p.h),
{
    let size = frame.len() as int;
    let once = p.rows_on(frame, stride, p.h);
    update_keeps_the_size(p, frame, stride);
    update_keeps_the_size(p, once, stride);
    let twice = p.rows_on(once, stride, p.h);
    assert forall|q: int| 0 <= q < size implies twice[q] == once[q] by {
        lemma_rows_bytes(p, frame, stride, p.h, q);
        lemma_rows_bytes(p, once, stride, p.h, q);
        lemma_byte_after(p, once[q], frame[q], stride, size, q, p.h);
    }
    assert(twice =~= once);
}

/// Updates that write different bytes can be made in either order.
pub proof fn updates_of_different_bytes_commute(a: Patch, b: Patch, frame: Seq<u8>, stride: int)
    requires
        a.placed(),
        b.placed(),
        a.stride >= 0,
        b.stride >= 0,
        stride >= 0,
        forall|q: int|
            0 <= q < frame.len() ==> !(#[trigger] writes(a, stride, frame.len() as int, q)
                && writes(b, stride, frame.len() as int, q)),
    ensures
        b.rows_on(a.rows_on(frame, stride, a.h), stride, b.h) == a.rows_on(
            b.rows_on(frame, stride, b.h),
            stride,
            a.h,
        ),
{
    let size = frame.len() as int;
    let fa = a.rows_on(frame, stride, a.h);
    let fb = b.rows_on(frame, stride, b.h);
    update_keeps_the_size(a, frame, stride);
    update_keeps_the_size(b, frame, stride);
    update_keeps_the_size(b, fa, stride);
    update_keeps_the_size(a, fb, stride);
    let ab = b.rows_on(fa, stride, b.h);
    let ba = a.rows_on(fb, stride, a.h);
    assert forall|q: int| 0 <= q < size implies ab[q] == ba[q] by {
        lemma_rows_bytes(a, frame, stride, a.h, q);
        lemma_rows_bytes(b, frame, stride, b.h, q);
        lemma_rows_bytes(b, fa, stride, b.h, q);
        lemma_rows_bytes(a, fb, stride, a.h, q);
        lemma_byte_after(a, frame[q], fb[q], stride, size, q, a.h);
        lemma_byte_after(a, fb[q], frame[q], stride, size, q, a.h);
        lemma_byte_after(b, frame[q], fa[q], stride, size, q, b.h);
        lemma_byte_after(b, fa[q], frame[q], stride, size, q, b.h);
        assert(writes(a, stride, size, q) ==> !writes(b, stride, size, q));
        if !writes(a, stride, size, q) {
            assert forall|row: int| row < a.h implies !#[trigger] row_writes(
                a,
                stride,
                size,
                row,
                q,
            ) by {}
        }
        if !writes(b, stride, size, q) {
            assert forall|row: int| row < b.h implies !#[trigger] row_writes(
                b,
                stride,
                size,
                row,
                q,
            ) by {}
        }
    }
    assert(ab =~= ba);
}

/// Updates of rectangles that have no byte in common can be made in either order.
pub proof fn disjoint_updates_commute(a: Patch, b: Patch, frame: Seq<u8>, stride: int)
    requires
        a.placed(),
        b.placed(),
        a.stride >= 0,
        b.stride >= 0,
        0 < stride,
        a.x * 4 + a.w * 4 <= stride,
        b.x * 4 + b.w * 4 <= stride,
        a.x + a.w <= b.x || b.x + b.w <= a.x || a.y + a.h <= b.y || b.y + b.h <= a.y,
    ensures
        b.rows_on(a.rows_on(frame, stride, a.h), stride, b.h) == a.rows_on(
            b.rows_on(frame, stride, b.h),
            stride,
            a.h,
        ),
{
    let size = frame.len() as int;
    assert forall|q: int| 0 <= q < size implies !(#[trigger] writes(a, stride, size, q) && writes(
        b,
        stride,
        size,
        q,
    )) by {
        lemma_writes_covered(a, stride, size, q);
        lemma_writes_covered(b, stride, size, q);
    }
    updates_of_different_bytes_commute(a, b, frame, stride);
}

/// No update changes the size of a frame.
pub proof fn update_keeps_the_size(p: Patch, frame: Seq<u8>, stride: int)
    requires
        p.placed(),
        p.stride >= 0,
        stride >= 0,
    ensures
        p.rows_on(frame, stride, p.h).len() == frame.len(),
{
    if p.h > 0 {
        lemma_rows_len(p, frame, stride, p.h);
    }
}

/// A message whose update, if it is one, has a place in a frame.
pub open spec fn placed_msg(msg: FrameMsg) -> bool {
    match msg {
        FrameMsg::Scanout { .. } => true,
        FrameMsg::Update { x, y, w, h, data, stride } => patch_of(
            x,
            y,
            w,
            h,
            data@,
            stride,
        ).placed(),
    }
}

/// The bytes, size and format of a frame buffer.
pub open spec fn frame_view(fs: FrameState) -> (Seq<u8>, u32, u32, u32, u32) {
    (fs.data@, fs.width, fs.height, fs.stride, fs.format)
}

/// The frame buffer after a message: a scanout replaces it, and an update changes the one
/// that is there.
pub open spec fn next_frame(
    now: Option<(Seq<u8>, u32, u32, u32, u32)>,
    msg: FrameMsg,
) -> Option<(Seq<u8>, u32, u32, u32, u32)> {
    match msg {
        FrameMsg::Scanout { data, width, height, stride, format } => Some(
            (data@, width, height, stride, format),
        ),
        FrameMsg::Update { x, y, w, h, data, stride } => match now {
            Some(f) => {
                let patch = patch_of(x, y, w, h, data@, stride);
                Some((patch.rows_on(f.0, f.3 as int, h as int), f.1, f.2, f.3, f.4))
            },
            None => None,
        },
    }
}

/// What is shown of a machine: nothing yet, or a frame buffer.
#[derive(Debug)]
pub struct Screen {
    pub frame: Option<FrameState>,
}

impl Screen {
    /// The frame buffer, if there is one.
    pub open spec fn shown(self) -> Option<(Seq<u8>, u32, u32, u32, u32)> {
        match self.frame {
            Some(fs) => Some(frame_view(fs)),
            None => None,
        }
    }

    /// A screen that shows nothing yet.
    pub fn new() -> (res: Screen)
        ensures
            res.shown().is_none(),
    {
        Screen { frame: None }
    }

    /// Takes a message, and says whether there is a frame to draw now.
    pub fn receive(&mut self, msg: FrameMsg) -> (res: bool)
        requires
            placed_msg(msg),
        ensures
            final(self).shown() == next_frame(old(self).shown(), msg),
            res == final(self).shown().is_some(),
    {
        match msg {
            FrameMsg::Scanout { data, width, height, stride, format } => {
                self.frame = Some(FrameState { data, width, height, stride, format });
                true
            },
            FrameMsg::Update { x, y, w, h, data, stride } => {
                match &mut self.frame {
                    Some(fs) => {
                        apply_update(fs, x, y, w, h, &data, stride);
                        true
                    },
                    None => false,
                }
            },
        }
    }

    /// The width and height of the frame in pixels; 1024 by 768 until there is one.
    pub fn size(&self) -> (res: (u32, u32))
        ensures
            res == match self.shown() {
                Some(f) => (f.1, f.2),
                None => (1024u32, 768u32),
            },
    {
        match &self.frame {
            Some(fs) => (fs.width, fs.height),
            None => (1024, 768),
        }
    }
}

/// Whether an update with these coordinates has a place in a frame.
pub fn has_place(x: i32, y: i32, w: i32, h: i32) -> (res: bool)
    ensures
        res == (h == 0 || (h > 0 && x >= 0 && y >= 0 && w >= 0)),
{
    h == 0 || (h > 0 && x >= 0 && y >= 0 && w >= 0)
}

/// A scanout is shown as it came, whatever was shown before.
pub proof fn scanout_forgets(
    now: Option<(Seq<u8>, u32, u32, u32, u32)>,
    before: Option<(Seq<u8>, u32, u32, u32, u32)>,
    msg: FrameMsg,
)
    requires
        msg is Scanout,
    ensures
        next_frame(now, msg) == next_frame(before, msg),
        next_frame(now, msg).is_some(),
{
}

/// Until the first scanout there is nothing to draw, and from then on there always is.
pub proof fn frames_begin_with_a_scanout(
    now: Option<(Seq<u8>, u32, u32, u32, u32)>,
    msg: FrameMsg,
)
    ensures
        next_frame(now, msg).is_some() <==> now.is_some() || msg is Scanout,
{
}

/// How often the console of a machine is looked for.
pub const CONSOLE_ATTEMPTS: u32 = 30;

/// The pause after an attempt that failed, in milliseconds.
pub const CONSOLE_PAUSE_MS: u32 = 500;

/// What follows an attempt to reach the console of a machine.
#[derive(Clone, Copy, Debug, PartialEq, Eq, Structural)]
pub enum AttemptStep {
    /// The console is there.
    Use,
    /// Pause, and try again.
    Retry,
    /// Pause, and give up.
    GiveUp,
}

/// What follows attempt number `attempt`, counted from 0.
pub open spec fn attempt_step(attempt: int, found: bool) -> AttemptStep {
    if found {
        AttemptStep::Use
    } else if attempt + 1 >= CONSOLE_ATTEMPTS {
        AttemptStep::GiveUp
    } else {
        AttemptStep::Retry
    }
}

/// What follows attempt number `attempt`, counted from 0.
pub fn after_attempt(attempt: u32, found: bool) -> (res: AttemptStep)
    ensures
        res == attempt_step(attempt as int, found),
{
    if found {
        AttemptStep::Use
    } else if attempt >= CONSOLE_ATTEMPTS - 1 {
        AttemptStep::GiveUp
    } else {
        AttemptStep::Retry
    }
}

/// How long the console has been waited for after `failures` failed attempts, in
/// milliseconds.
pub open spec fn waited_ms(failures: int) -> int {
    failures * CONSOLE_PAUSE_MS
}

/// Where the search for the console is given up and was not before, it has been waited for
/// 15 seconds.
pub proof fn console_is_given_up_after_15_s(attempt: int)
    requires
        attempt >= 0,
        attempt_step(attempt, false) == AttemptStep::GiveUp,
        attempt > 0 ==> attempt_step(attempt - 1, false) == AttemptStep::Retry,
    ensures
        waited_ms(attempt + 1) == 15_000,
{
}

/// The systems that a display can be of.
#[derive(Clone, Copy, Debug, PartialEq, Eq, Structural)]
pub enum Backend {
    Wayland,
    X11,
    Other,
}

/// Whether hardware key codes follow the evdev numbering: on Wayland and X11, and where
/// the display is not known.
pub fn has_evdev_keys(display: Option<Backend>) -> (res: bool)
    ensures
        res == (display != Some(Backend::Other)),
{
    match display {
        Some(Backend::Wayland) => true,
        Some(Backend::X11) => true,
        Some(Backend::Other) => false,
        None => true,
    }
}

/// The key number that a table gives for a key code: none without a table, beyond its
/// end, and where it holds 0.
pub open spec fn key_in(map: Option<Seq<u16>>, keycode: u32) -> Option<u32> {
    match map {
        Some(m) => if keycode < m.len() && m[keycode as int] != 0 {
            Some(m[keycode as int] as u32)
        } else {
            None
        },
        None => None,
    }
}

/// The key number to send for a key code.
pub fn key_number(map: Option<&[u16]>, keycode: u32) -> (res: Option<u32>)
    ensures
        res == key_in(
            match map {
                Some(m) => Some(m@),
                None => None,
            },
            keycode,
        ),
{
    match map {
        Some(m) => {
            if (keycode as u64) < m.len() as u64 && m[keycode as usize] != 0 {
                Some(m[keycode as usize] as u32)
            } else {
                None
            }
        },
        None => None,
    }
}

/// The buttons of a mouse.
#[derive(Clone, Copy, Debug, PartialEq, Eq, Structural)]
pub enum MouseButton {
    Left,
    Middle,
    Right,
}

/// The mouse button with a number, if it is one that the machine knows.
pub fn mouse_button(number: u32) -> (res: Option<MouseButton>)
    ensures
        res == Some(MouseButton::Left) <==> number == 1,
        res == Some(MouseButton::Middle) <==> number == 2,
        res == Some(MouseButton::Right) <==> number == 3,
{
    match number {
        1 => Some(MouseButton::Left),
        2 => Some(MouseButton::Middle),
        3 => Some(MouseButton::Right),
        _ => None,
    }
}

/// Where the pointer is: at the top edge, below the header, or between the two.
#[derive(Clone, Copy, Debug, PartialEq, Eq, Structural)]
pub enum Zone {
    Top,
    Header,
    Below,
}

/// What happens to the header of the window.
#[derive(Clone, Copy, Debug, PartialEq, Eq, Structural)]
pub enum BarEvent {
    /// The Fullscreen button or F11, with whether the window fills the screen.
    Toggle(bool),
    /// The pointer moved.
    Motion(Zone),
    /// The timer of two seconds ran out.
    Timeout,
}

/// What to do with the timer that hides the header.
#[derive(Clone, Copy, Debug, PartialEq, Eq, Structural)]
pub enum Timer {
    Keep,
    Start,
    Cancel,
}

/// What to do with the window after an event.
#[derive(Clone, Copy, Debug, PartialEq, Eq, Structural)]
pub struct BarAction {
    /// Make the window fill the screen, or not.
    pub fullscreen: Option<bool>,
    /// Show or hide the header.
    pub reveal: Option<bool>,
    pub timer: Timer,
}

/// The header of the window: whether it was asked to fill the screen, whether the header
/// is seen, and whether a timer is set that hides it.
#[derive(Clone, Copy, Debug, PartialEq, Eq, Structural)]
pub struct Bars {
    pub fullscreen: bool,
    pub visible: bool,
    pub pending: bool,
}

impl Bars {
    /// The header at first: seen, in a window that does not fill the screen.
    pub fn new() -> (res: Bars)
        ensures
            res == (Bars { fullscreen: false, visible: true, pending: false }),
    {
        Bars { fullscreen: false, visible: true, pending: false }
    }

    /// The header after an event, and what to do.
    pub open spec fn next(self, event: BarEvent) -> (Bars, BarAction) {
        match event {
            BarEvent::Toggle(true) => (
                Bars { fullscreen: false, visible: true, pending: false },
                BarAction {
                    fullscreen: Some(false),
                    reveal: Some(true),
                    timer: if self.pending {
                        Timer::Cancel
                    } else {
                        Timer::Keep
                    },
                },
            ),
            BarEvent::Toggle(false) => (
                Bars { fullscreen: true, visible: self.visible, pending: true },
                BarAction { fullscreen: Some(true), reveal: None, timer: Timer::Start },
            ),
            BarEvent::Motion(zone) => if !self.fullscreen {
                (self, BarAction { fullscreen: None, reveal: None, timer: Timer::Keep })
            } else if zone == Zone::Top {
                (
                    Bars { fullscreen: true, visible: true, pending: false },
                    BarAction {
                        fullscreen: None,
                        reveal: if self.visible {
                            None
                        } else {
                            Some(true)
                        },
                        timer: if self.pending {
                            Timer::Cancel
                        } else {
                            Timer::Keep
                        },
                    },
                )
            } else if zone == Zone::Below && self.visible && !self.pending {
                (
                    Bars { fullscreen: true, visible: true, pending: true },
                    BarAction { fullscreen: None, reveal: None, timer: Timer::Start },
                )
            } else {
                (self, BarAction { fullscreen: None, reveal: None, timer: Timer::Keep })
            },
            BarEvent::Timeout => (
                Bars { fullscreen: self.fullscreen, visible: false, pending: false },
                BarAction { fullscreen: None, reveal: Some(false), timer: Timer::Keep },
            ),
        }
    }

    /// Takes an event, and says what to do.
    pub fn handle(&mut self, event: BarEvent) -> (res: BarAction)
        ensures
            (*final(self), res) == old(self).next(event),
    {
        match event {
            BarEvent::Toggle(filled) => {
                if filled {
                    let timer = if self.pending {
                        Timer::Cancel
                    } else {
                        Timer::Keep
                    };
                    self.fullscreen = false;
                    self.pending = false;
                    self.visible = true;
                    BarAction { fullscreen: Some(false), reveal: Some(true), timer }
                } else {
                    self.fullscreen = true;
                    self.pending = true;
                    BarAction { fullscreen: Some(true), reveal: None, timer: Timer::Start }
                }
            },
            BarEvent::Motion(zone) => {
                if !self.fullscreen {
                    return BarAction { fullscreen: None, reveal: None, timer: Timer::Keep };
                }
                if zone == Zone::Top {
                    let timer = if self.pending {
                        Timer::Cancel
                    } else {
                        Timer::Keep
                    };
                    self.pending = false;
                    let reveal = if self.visible {
                        None
                    } else {
                        Some(true)
                    };
                    self.visible = true;
                    BarAction { fullscreen: None, reveal, timer }
                } else if zone == Zone::Below && self.visible && !self.pending {
                    self.pending = true;
                    BarAction { fullscreen: None, reveal: None, timer: Timer::Start }
                } else {
                    BarAction { fullscreen: None, reveal: None, timer: Timer::Keep }
                }
            },
            BarEvent::Timeout => {
                self.visible = false;
                self.pending = false;
                BarAction { fullscreen: None, reveal: Some(false), timer: Timer::Keep }
            },
        }
    }

    /// A window that does not fill the screen shows its header and has no timer set.
    pub open spec fn settled(self) -> bool {
        !self.fullscreen ==> self.visible && !self.pending
    }
}

/// The label of the button that changes between window and full screen.
pub fn fullscreen_label(filled: bool) -> (res: &'static str)
    ensures
        res@ == (if filled {
            "Exit Fullscreen"@
        } else {
            "Fullscreen"@
        }),
{
    if filled {
        "Exit Fullscreen"
    } else {
        "Fullscreen"
    }
}

/// Every event leaves the header settled, as long as the window fills the screen exactly
/// when it was asked to, and the timer runs out only while it is set.
pub proof fn header_stays_settled(bars: Bars, event: BarEvent)
    requires
        bars.settled(),
        match event {
            BarEvent::Toggle(filled) => filled == bars.fullscreen,
            BarEvent::Motion(_) => true,
            BarEvent::Timeout => bars.pending,
        },
    ensures
        bars.next(event).0.settled(),
{
}

/// On a full screen the header hides two seconds after it was entered, and comes back
/// when the pointer reaches the top edge.
pub proof fn header_hides_and_comes_back(bars: Bars)
    ensures
        ({
            let (entered, action) = bars.next(BarEvent::Toggle(false));
            let hidden = entered.next(BarEvent::Timeout).0;
            let back = hidden.next(BarEvent::Motion(Zone::Top)).0;
            &&& action.timer == Timer::Start
            &&& hidden.fullscreen && !hidden.visible
            &&& back.fullscreen && back.visible && !back.pending
        }),
{
}

/// Leaving the full screen undoes entering it.
pub proof fn leaving_undoes_entering(bars: Bars)
    requires
        !bars.fullscreen,
        bars.settled(),
    ensures
        bars.next(BarEvent::Toggle(false)).0.next(BarEvent::Toggle(true)).0 == bars,
{
}

/// The pointer at the top edge keeps the header: no timer is set there.
pub proof fn top_edge_keeps_the_header(bars: Bars)
    requires
        bars.fullscreen,
    ensures
        bars.next(BarEvent::Motion(Zone::Top)).0.visible,
        !bars.next(BarEvent::Motion(Zone::Top)).0.pending,
        bars.pending ==> bars.next(BarEvent::Motion(Zone::Top)).1.timer == Timer::Cancel,
{
}

/// What the window knows of its machine: the number of its process, once it has been
/// seen, and whether it is paused.
#[derive(Clone, Copy, Debug, PartialEq, Eq, Structural)]
pub struct Watch {
    pub pid: Option<u32>,
    pub paused: bool,
}

impl Watch {
    /// Nothing known yet.
    pub fn new() -> (res: Watch)
        ensures
            res == (Watch { pid: None, paused: false }),
    {
        Watch { pid: None, paused: false }
    }

    /// Looks for the process that runs in the machine's directory. Where there is none
    /// the machine has ended, and the window is to be closed.
    pub fn look(&mut self, processes: &Vec<QemuProcess>, path: &[u8]) -> (res: bool)
        ensures
            res == pid_in(processes@, path@).is_some(),
            final(self).paused == old(self).paused,
            final(self).pid == (if res {
                pid_in(processes@, path@)
            } else {
                old(self).pid
            }),
    {
        match find_pid(processes, path) {
            Some(pid) => {
                self.pid = Some(pid);
                true
            },
            None => false,
        }
    }
}

/// What the Pause button says.
pub fn pause_label(paused: bool) -> (res: &'static str)
    ensures
        res@ == (if paused {
            "Resume"@
        } else {
            "Pause"@
        }),
{
    if paused {
        "Resume"
    } else {
        "Pause"
    }
}

/// The question before a machine is told to shut down.
pub fn stop_question(vm_name: &str) -> (res: String)
    ensures
        res@ == "Send shutdown signal to \""@ + vm_name@
            + "\"? Unsaved guest work may be lost."@,
{
    wrap("Send shutdown signal to \"", vm_name, "\"? Unsaved guest work may be lost.")
}

/// The question before a machine is killed.
pub fn force_stop_question(vm_name: &str) -> (res: String)
    ensures
        res@ == "Force kill \""@ + vm_name@ + "\"? The guest OS will not shut down cleanly."@,
{
    wrap("Force kill \"", vm_name, "\"? The guest OS will not shut down cleanly.")
}

/// Whether the answer to the question says to tell the machine to shut down.
pub fn stop_confirmed(response: &str) -> (res: bool)
    ensures
        res == (response@ == "stop"@),
{
    same_text(response, "stop")
}

/// Whether the answer to the question says to kill the machine.
pub fn force_stop_confirmed(response: &str) -> (res: bool)
    ensures
        res == (response@ == "force"@),
{
    same_text(response, "force")
}

} // verus!
