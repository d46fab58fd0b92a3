//! The graphics resources a capture holds: drawing contexts, and the
//! off-screen surface that a window's pixels are copied into.
//!
//! Nothing here touches the host. A resource is known by the identifier the
//! host gave for it, and giving it back is a [`Teardown`] for the owner of
//! the session to carry out.

use crate::handle::WindowId;
use vstd::prelude::*;

verus! {

/// Colour planes of a surface.
pub const PLANES: u16 = 1;

/// Bits that one pixel takes.
pub const BITS_PER_PIXEL: u16 = 32;

/// Bytes that one pixel takes.
pub const BYTES_PER_PIXEL: u64 = 4;

/// The host's code for pixels that are stored as they are, each channel
/// where its mask says.
pub const BITFIELDS: u32 = 3;

/// The bits of a pixel that hold red: the third byte.
pub const RED_MASK: u32 = 0x00FF_0000;

/// The bits of a pixel that hold green: the second byte.
pub const GREEN_MASK: u32 = 0x0000_FF00;

/// The bits of a pixel that hold blue: the first byte.
pub const BLUE_MASK: u32 = 0x0000_00FF;

/// The host's code for a copy that replaces the target's pixels with the
/// source's, without blending.
pub const SOURCE_COPY: u32 = 0x00CC_0020;

/// The host's identifier of a drawing context.
#[derive(Clone, Copy, Debug, PartialEq, Eq, Structural)]
pub struct ContextId {
    pub raw: isize,
}

impl ContextId {
    /// Whether the host gave this value in place of a context: null, or all
    /// bits set.
    pub open spec fn invalid(self) -> bool {
        self.raw == 0 || self.raw == -1
    }

    /// Tells whether the host gave this value in place of a context.
    pub fn is_invalid(&self) -> (invalid: bool)
        ensures
            invalid == self.invalid(),
    {
        self.raw == 0 || self.raw == -1
    }
}

/// The host's identifier of a graphics object, such as a surface.
#[derive(Clone, Copy, Debug, PartialEq, Eq, Structural)]
pub struct ObjectId {
    pub raw: isize,
}

impl ObjectId {
    /// Whether the host gave this value in place of an object: null, or all
    /// bits set.
    pub open spec fn invalid(self) -> bool {
        self.raw == 0 || self.raw == -1
    }

    /// Tells whether the host gave this value in place of an object.
    pub fn is_invalid(&self) -> (invalid: bool)
        ensures
            invalid == self.invalid(),
    {
        self.raw == 0 || self.raw == -1
    }
}

/// One way of giving a resource back to the host.
#[derive(Clone, Copy, Debug, PartialEq, Eq, Structural)]
pub enum Teardown {
    /// Hand a borrowed context back to the window it was borrowed from.
    ReleaseContext { window: WindowId, context: ContextId },
    /// Destroy a context that belongs to nobody else.
    DeleteContext(ContextId),
    /// Destroy a graphics object.
    DeleteObject(ObjectId),
}

/// A drawing context that is held right now. It is either borrowed from a
/// window, which wants it back, or private, and then it is destroyed.
///
/// The value cannot be copied: whoever holds it owes the host its
/// [`release`](DeviceContext::release), once.
#[derive(Debug)]
pub struct DeviceContext {
    pub inner: ContextId,
    /// The window the context was borrowed from; none for a private one.
    pub handle: Option<WindowId>,
}

impl DeviceContext {
    /// How this context goes back to the host: to its window if it was
    /// borrowed, destroyed if it is private.
    pub open spec fn teardown(self) -> Teardown {
        match self.handle {
            Some(window) => Teardown::ReleaseContext { window, context: self.inner },
            None => Teardown::DeleteContext(self.inner),
        }
    }

    /// The context `inner` as borrowed from `window`.
    pub fn borrowed(inner: ContextId, window: WindowId) -> (context: Self)
        ensures
            context == (DeviceContext { inner, handle: Some(window) }),
    {
        Self { inner, handle: Some(window) }
    }

    /// The context `inner` as a private one.
    pub fn owned(inner: ContextId) -> (context: Self)
        ensures
            context == (DeviceContext { inner, handle: None }),
    {
        Self { inner, handle: None }
    }

    /// Gives the context up and says how the host gets it back.
    pub fn release(self) -> (teardown: Teardown)
        ensures
            teardown == self.teardown(),
    {
        match self.handle {
            Some(window) => Teardown::ReleaseContext { window, context: self.inner },
            None => Teardown::DeleteContext(self.inner),
        }
    }
}

/// The bytes that the pixels of a `width` by `height` surface take.
pub open spec fn byte_size(width: int, height: int) -> int {
    width * height * 4
}

/// Computes the bytes that the pixels of a `width` by `height` surface take.
pub fn surface_bytes(width: i32, height: i32) -> (size: u64)
    requires
        width > 0,
        height > 0,
    ensures
        size == byte_size(width as int, height as int),
{
    assert(0 < width * height <= 0x7FFF_FFFF * 0x7FFF_FFFF) by (nonlinear_arith)
        requires
            0 < width <= 0x7FFF_FFFF,
            0 < height <= 0x7FFF_FFFF,
    ;
    width as u64 * height as u64 * BYTES_PER_PIXEL
}

/// How the host is to lay out a new surface: rows from the top of the window
/// down, one pixel after the other, each pixel four bytes that hold blue,
/// green, red and a spare byte in this order, uncompressed.
#[derive(Clone, Copy, Debug, PartialEq, Eq, Structural)]
pub struct SurfaceLayout {
    /// Pixels in a row.
    pub width: i32,
    /// Rows, negated: to the host a negative height means that the first row
    /// in memory is the top one.
    pub height: i32,
    pub planes: u16,
    pub bit_count: u16,
    pub compression: u32,
    pub red_mask: u32,
    pub green_mask: u32,
    pub blue_mask: u32,
}

impl SurfaceLayout {
    /// The layout of a surface for a client area of `width` by `height`
    /// pixels.
    pub open spec fn of(width: i32, height: i32) -> SurfaceLayout {
        SurfaceLayout {
            width,
            height: (-height) as i32,
            planes: PLANES,
            bit_count: BITS_PER_PIXEL,
            compression: BITFIELDS,
            red_mask: RED_MASK,
            green_mask: GREEN_MASK,
            blue_mask: BLUE_MASK,
        }
    }

    /// Lays out a surface for a client area of `width` by `height` pixels.
    pub fn new(width: i32, height: i32) -> (layout: Self)
        requires
            width > 0,
            height > 0,
        ensures
            layout == Self::of(width, height),
            layout.height == -height,
    {
        Self {
            width,
            height: -height,
            planes: PLANES,
            bit_count: BITS_PER_PIXEL,
            compression: BITFIELDS,
            red_mask: RED_MASK,
            green_mask: GREEN_MASK,
            blue_mask: BLUE_MASK,
        }
    }
}

/// What the host hands back for a new surface: the surface object, and the
/// address at which its pixels are mapped into memory.
#[derive(Clone, Copy, Debug, PartialEq, Eq, Structural)]
pub struct Mapping {
    pub object: ObjectId,
    pub buffer: usize,
}

/// An off-screen surface of the size the window had when the surface was
/// made, with the private context it is drawn through and the place where
/// its pixels can be read.
///
/// The object, the context and the mapped pixels live and die together:
/// [`discard`](Bitmap::discard) gives all of them up at once.
#[derive(Debug)]
pub struct Bitmap {
    pub inner: ObjectId,
    pub device_context: DeviceContext,
    pub width: i32,
    pub height: i32,
    /// Bytes of mapped pixels.
    pub size: u64,
    /// Address of the mapped pixels.
    pub buffer: usize,
}

impl Bitmap {
    /// A surface has a positive width and height, four bytes for each
    /// pixel, and a private context.
    pub open spec fn wf(self) -> bool {
        &&& self.width > 0
        &&& self.height > 0
        &&& self.size == byte_size(self.width as int, self.height as int)
        &&& self.device_context.handle is None
    }

    /// Whether the surface is `width` by `height` pixels.
    pub open spec fn fits(self, width: i32, height: i32) -> bool {
        self.width == width && self.height == height
    }

    /// The surface that the host made on `context` for a client area of
    /// `width` by `height` pixels.
    pub open spec fn made(context: ContextId, width: i32, height: i32, mapping: Mapping) -> Bitmap {
        Bitmap {
            inner: mapping.object,
            device_context: DeviceContext { inner: context, handle: None },
            width,
            height,
            size: byte_size(width as int, height as int) as u64,
            buffer: mapping.buffer,
        }
    }

    /// How the surface goes back to the host: the object first, then its
    /// context.
    pub open spec fn discarded(self) -> (Teardown, Teardown) {
        (Teardown::DeleteObject(self.inner), self.device_context.teardown())
    }

    /// Tells whether the surface is `width` by `height` pixels.
    pub fn has_size(&self, width: i32, height: i32) -> (fits: bool)
        ensures
            fits == self.fits(width, height),
    {
        self.width == width && self.height == height
    }

    /// Gives the surface up and says how the host gets it back: the first
    /// teardown before the second.
    pub fn discard(self) -> (teardowns: (Teardown, Teardown))
        ensures
            teardowns == self.discarded(),
    {
        (Teardown::DeleteObject(self.inner), self.device_context.release())
    }
}

/// A surface made for a client area with a positive width and height is
/// well formed: the bytes of its pixels can be counted.
pub proof fn lemma_made_wf(context: ContextId, width: i32, height: i32, mapping: Mapping)
    requires
        width > 0,
        height > 0,
    ensures
        Bitmap::made(context, width, height, mapping).wf(),
        Bitmap::made(context, width, height, mapping).fits(width, height),
{
    assert(0 < width * height * 4 <= 0x7FFF_FFFF * 0x7FFF_FFFF * 4) by (nonlinear_arith)
        requires
            0 < width <= 0x7FFF_FFFF,
            0 < height <= 0x7FFF_FFFF,
    ;
}

/// Takes charge of the surface that the host made on the private context
/// `context` for a client area of `width` by `height` pixels.
pub fn create_bitmap(context: ContextId, width: i32, height: i32, mapping: Mapping) -> (bitmap:
    Bitmap)
    requires
        width > 0,
        height > 0,
    ensures
        bitmap == Bitmap::made(context, width, height, mapping),
        bitmap.wf(),
        bitmap.fits(width, height),
{
    Bitmap {
        inner: mapping.object,
        device_context: DeviceContext::owned(context),
        width,
        height,
        size: surface_bytes(width, height),
        buffer: mapping.buffer,
    }
}

} // verus!
