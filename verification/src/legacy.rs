//! Interfaces kept for programs that paint pixels themselves.
use vstd::prelude::*;
use vstd::string::*;

verus! {

/// A buffer of four-channel pixels.
pub struct PixelTarget {
    width: u32,
    height: u32,
    bytes: Vec<u8>,
}

impl PixelTarget {
    /// The number of pixels in a row.
    pub closed spec fn columns(self) -> u32 {
        self.width
    }

    /// The number of rows.
    pub closed spec fn rows(self) -> u32 {
        self.height
    }

    /// The channels of the pixels, row by row.
    pub closed spec fn channels(self) -> Seq<u8> {
        self.bytes@
    }

    /// There is at least one pixel, and four channels for each.
    pub open spec fn wf(self) -> bool {
        &&& self.columns() > 0
        &&& self.rows() > 0
        &&& self.channels().len() == self.columns() * self.rows() * 4
    }

    /// A target of transparent black pixels; an error where a side is zero.
    pub fn new(width: u32, height: u32) -> (r: Result<PixelTarget, String>)
        requires
            width * height * 4 <= u32::MAX,
        ensures
            r is Err <==> width == 0 || height == 0,
            r matches Err(text) ==> text@ == "pixel target must be non-empty"@,
            r matches Ok(t) ==> t.wf() && t.columns() == width && t.rows() == height && t.channels()
                == Seq::new((width * height * 4) as nat, |i: int| 0u8),
    {
        if width == 0 || height == 0 {
            return Err(String::from_str("pixel target must be non-empty"));
        }
        proof {
            assert(width * height <= width * height * 4) by (nonlinear_arith);
        }
        let len: usize = (width * height * 4) as usize;
        let bytes: Vec<u8> = vec![0u8; len];
        proof {
            assert(bytes@ =~= Seq::new((width * height * 4) as nat, |i: int| 0u8));
        }
        Ok(PixelTarget { width, height, bytes })
    }

    pub fn width(&self) -> (r: u32)
        ensures
            r == self.columns(),
    {
        self.width
    }

    pub fn height(&self) -> (r: u32)
        ensures
            r == self.rows(),
    {
        self.height
    }

    /// The channels, to be painted.
    pub fn bytes_mut(&mut self) -> (r: &mut [u8])
        ensures
            r@ == old(self).channels(),
            final(self).channels() == final(r)@,
            final(self).columns() == old(self).columns(),
            final(self).rows() == old(self).rows(),
    {
        self.bytes.as_mut_slice()
    }

    /// Pixels are always taken as a whole, so that no part needs marking.
    pub fn mark_dirty(&mut self, _x: u32, _y: u32, _w: u32, _h: u32)
        ensures
            *final(self) == *old(self),
    {
    }

    pub fn mark_whole_dirty(&mut self)
        ensures
            *final(self) == *old(self),
    {
    }

    pub fn present(&mut self)
        ensures
            *final(self) == *old(self),
    {
    }
}

/// The native handle of the window: what was stored on Windows, and none on
/// other systems.
pub fn hwnd(stored: &Option<isize>, windows: bool) -> (r: Option<isize>)
    ensures
        r == if windows {
            *stored
        } else {
            None
        },
{
    if windows {
        *stored
    } else {
        None
    }
}

/// Store the native handle of the window; the first one stays.
pub fn set_hwnd(stored: &mut Option<isize>, hwnd: isize)
    ensures
        *final(stored) == if *old(stored) is Some {
            *old(stored)
        } else {
            Some(hwnd)
        },
{
    if stored.is_none() {
        *stored = Some(hwnd);
    }
}

} // verus!
