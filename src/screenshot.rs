use vstd::prelude::*;

use crate::phase::StatePhase;

verus! {

/// Pixel formats that the compositor may declare for a captured frame,
/// named as the shared-memory protocol names them.
#[derive(Clone, Copy, Debug, PartialEq, Eq, Structural)]
pub enum PixelFormat {
    Argb8888,
    Xrgb8888,
    Abgr8888,
    Xbgr8888,
    /// Any other format, by its protocol code.
    Other(u32),
}

impl PixelFormat {
    /// Whether the red and blue channels must trade places.
    pub open spec fn blue_first(self) -> bool {
        self is Abgr8888 || self is Xbgr8888
    }

    pub open spec fn supported(self) -> bool {
        !(self is Other)
    }
}

/// The frame that the compositor is about to deliver.
#[derive(Clone, Copy, Debug, PartialEq, Eq, Structural)]
pub struct FrameInfo {
    pub width: u32,
    pub height: u32,
    pub stride: u32,
    pub format: PixelFormat,
}

/// Ways in which the compositor broke the capture handshake.
#[derive(Clone, Copy, Debug, PartialEq, Eq, Structural)]
pub enum CaptureError {
    /// The frame comes in a format that this library cannot read.
    UnsupportedFormat(u32),
    /// The frame was declared ready before any buffer was declared.
    ReadyWithoutBuffer,
}

/// `raw` with the first and third byte of each four-byte pixel swapped.
pub open spec fn swapped_red_blue(raw: Seq<u8>) -> Seq<u8> {
    Seq::new(
        raw.len(),
        |i: int|
            if i % 4 == 0 && i + 2 < raw.len() {
                raw[i + 2]
            } else if i % 4 == 2 {
                raw[i - 2]
            } else {
                raw[i]
            },
    )
}

/// The bytes of a captured frame in the library's channel order.
pub open spec fn normalized(format: PixelFormat, raw: Seq<u8>) -> Seq<u8> {
    if format.blue_first() {
        swapped_red_blue(raw)
    } else {
        raw
    }
}

/// Swaps the red and blue channel of every pixel.
pub fn swap_red_blue(raw: Vec<u8>) -> (r: Vec<u8>)
    ensures
        r@ == swapped_red_blue(raw@),
{
    let mut data = raw;
    let ghost d0 = data@;
    let len = data.len();
    let mut i: usize = 0;
    while len - i > 2
        invariant
            len == data@.len(),
            d0.len() == len,
            i % 4 == 0 || i == len,
            i <= len,
            forall|j: int|
                0 <= j < len ==> #[trigger] data@[j] == if j < i {
                    swapped_red_blue(d0)[j]
                } else {
                    d0[j]
                },
        decreases len - i,
    {
        let r = data[i];
        let b = data[i + 2];
        data.set(i, b);
        data.set(i + 2, r);
        if len - i >= 4 {
            i = i + 4;
        } else {
            i = len;
        }
    }
    assert(data@ =~= swapped_red_blue(d0));
    data
}

/// The capture phase: waits for the compositor to declare a buffer and then
/// to fill it.
#[derive(Debug, PartialEq, Eq)]
pub struct ScreenshotApp {
    /// The captured image, once the frame is ready.
    pub image: Option<Vec<u8>>,
    /// The buffer that the compositor declared.
    pub frame: Option<FrameInfo>,
}

impl ScreenshotApp {
    pub fn new() -> (r: Self)
        ensures
            r.image is None,
            r.frame is None,
    {
        ScreenshotApp { image: None, frame: None }
    }

    /// Done once the image is there.
    pub fn current_phase(&self) -> (r: StatePhase)
        ensures
            r == if self.image is Some {
                StatePhase::Done
            } else {
                StatePhase::Active
            },
    {
        if self.image.is_some() {
            StatePhase::Done
        } else {
            StatePhase::Active
        }
    }

    /// The first message: the compositor declares the buffer it will fill.
    /// A supported format is recorded, and the caller then allocates the
    /// buffer and asks for the copy; any other format is refused.
    pub fn on_buffer(&mut self, info: FrameInfo) -> (r: Result<(), CaptureError>)
        ensures
            info.format.supported() ==> r is Ok && final(self).frame == Some(info) && final(self).image
                == old(self).image,
            !info.format.supported() ==> r == Err::<(), CaptureError>(
                CaptureError::UnsupportedFormat(info.format->Other_0),
            ) && *final(self) == *old(self),
    {
        match info.format {
            PixelFormat::Other(code) => Err(CaptureError::UnsupportedFormat(code)),
            _ => {
                self.frame = Some(info);
                Ok(())
            },
        }
    }

    /// The second message: the buffer is filled with `raw`. The image is
    /// kept with its channels in the library's order.
    pub fn on_ready(&mut self, raw: Vec<u8>) -> (r: Result<(), CaptureError>)
        ensures
            old(self).frame is None ==> r == Err::<(), CaptureError>(CaptureError::ReadyWithoutBuffer)
                && *final(self) == *old(self),
            old(self).frame matches Some(f) ==> {
                &&& r is Ok
                &&& final(self).frame == old(self).frame
                &&& final(self).image matches Some(img) && img@ == normalized(f.format, raw@)
            },
    {
        match self.frame {
            None => Err(CaptureError::ReadyWithoutBuffer),
            Some(f) => {
                let data = match f.format {
                    PixelFormat::Abgr8888 | PixelFormat::Xbgr8888 => swap_red_blue(raw),
                    _ => raw,
                };
                self.image = Some(data);
                Ok(())
            },
        }
    }
}

} // verus!
