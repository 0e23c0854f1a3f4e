//! The frame encoder: stamps each frame with the QR symbol of its identifier.
use vstd::prelude::*;
use crate::error::CodecError;
use crate::frame::{lemma_cell_in_grid, lemma_channel_in_frame, lemma_channels_distinct};
use crate::frame::VideoGeometry;
use crate::identifier::{identifier_text, Identifier};
use crate::symbol::{qr_symbol, render_symbol, Bitmap};

verus! {

/// `new` is `old` with the `bw` x `bh` bitmap `pixels` drawn at the frame's
/// top-left corner: the colour channels of each covered pixel take the
/// bitmap's intensity, padding channels and every other byte are kept, and the
/// part of the bitmap that falls outside the frame is left out.
pub open spec fn stamped(
    old: Seq<u8>,
    new: Seq<u8>,
    g: VideoGeometry,
    bw: u32,
    bh: u32,
    pixels: Seq<u8>,
) -> bool {
    &&& new.len() == old.len()
    &&& forall|x: int, y: int, c: int|
        0 <= x < g.width && 0 <= y < g.height && 0 <= c < g.bpp() ==> new[#[trigger] g.channel_index(
            x,
            y,
            c,
        )] == if c < 3 && x < bw && y < bh {
            pixels[x + bw * y]
        } else {
            old[g.channel_index(x, y, c)]
        }
    &&& forall|i: int| g.frame_size() <= i < old.len() ==> new[i] == old[i]
}

/// Draws `bitmap` at the top-left corner of `frame`, clipped to the frame.
pub fn stamp_bitmap(frame: &mut Vec<u8>, g: VideoGeometry, bitmap: &Bitmap)
    requires
        old(frame)@.len() >= g.frame_size(),
        bitmap.wf(),
    ensures
        stamped(old(frame)@, final(frame)@, g, bitmap.width, bitmap.height, bitmap.pixels@),
{
    let bpp = g.format.bytes_per_pixel();
    let width = g.width as usize;
    let bw = bitmap.width as usize;
    let cols = if bitmap.width < g.width {
        bitmap.width
    } else {
        g.width
    } as usize;
    let rows = if bitmap.height < g.height {
        bitmap.height
    } else {
        g.height
    } as usize;
    let ghost start = frame@;
    let mut y: usize = 0;
    while y < rows
        invariant
            frame@.len() == start.len(),
            start == old(frame)@,
            start.len() >= g.frame_size(),
            bitmap.wf(),
            bpp == g.bpp(),
            width == g.width,
            bw == bitmap.width,
            cols <= g.width,
            cols <= bitmap.width,
            cols == g.width || cols == bitmap.width,
            rows <= g.height,
            rows <= bitmap.height,
            rows == g.height || rows == bitmap.height,
            y <= rows,
            forall|x2: int, y2: int, c: int|
                0 <= x2 < g.width && 0 <= y2 < g.height && 0 <= c < g.bpp() ==> frame@[#[trigger] g.channel_index(
                    x2,
                    y2,
                    c,
                )] == if c < 3 && x2 < cols && y2 < y {
                    bitmap.pixels@[x2 + bw * y2]
                } else {
                    start[g.channel_index(x2, y2, c)]
                },
            forall|i: int| g.frame_size() <= i < start.len() ==> frame@[i] == start[i],
        decreases rows - y,
    {
        let mut x: usize = 0;
        while x < cols
            invariant
                frame@.len() == start.len(),
                start.len() >= g.frame_size(),
                bitmap.wf(),
                bpp == g.bpp(),
                width == g.width,
                bw == bitmap.width,
                cols <= g.width,
                cols <= bitmap.width,
                rows <= g.height,
                rows <= bitmap.height,
                y < rows,
                x <= cols,
                forall|x2: int, y2: int, c: int|
                    0 <= x2 < g.width && 0 <= y2 < g.height && 0 <= c < g.bpp() ==> frame@[#[trigger] g.channel_index(
                        x2,
                        y2,
                        c,
                    )] == if c < 3 && x2 < cols && (y2 < y || (y2 == y && x2 < x)) {
                        bitmap.pixels@[x2 + bw * y2]
                    } else {
                        start[g.channel_index(x2, y2, c)]
                    },
                forall|i: int| g.frame_size() <= i < start.len() ==> frame@[i] == start[i],
            decreases cols - x,
        {
            let n_pixels = bitmap.pixels.len();
            let n_bytes = frame.len();
            proof {
                lemma_cell_in_grid(bitmap.width as int, bitmap.height as int, x as int, y as int);
                lemma_cell_in_grid(g.width as int, g.height as int, x as int, y as int);
                lemma_channel_in_frame(g, x as int, y as int, 0);
                lemma_channel_in_frame(g, x as int, y as int, 1);
                lemma_channel_in_frame(g, x as int, y as int, 2);
                assert(bw * y <= x + bw * y < bitmap.pixels@.len());
                let p = x + width * y;
                assert(p <= bpp * p) by (nonlinear_arith)
                    requires
                        0 <= p,
                        1 <= bpp,
                ;
                assert(width * y <= p);
            }
            let value = bitmap.pixels[x + bw * y];
            let base = bpp * (x + width * y);
            let ghost before = frame@;
            assert(base == g.channel_index(x as int, y as int, 0));
            frame.set(base, value);
            frame.set(base + 1, value);
            frame.set(base + 2, value);
            proof {
                assert forall|x2: int, y2: int, c: int|
                    0 <= x2 < g.width && 0 <= y2 < g.height && 0 <= c < g.bpp() && (x2 != x || y2
                        != y) implies frame@[#[trigger] g.channel_index(x2, y2, c)]
                    == before[g.channel_index(x2, y2, c)] by {
                    lemma_channel_in_frame(g, x2, y2, c);
                    lemma_channels_distinct(g, x2, y2, c, x as int, y as int, 0);
                    lemma_channels_distinct(g, x2, y2, c, x as int, y as int, 1);
                    lemma_channels_distinct(g, x2, y2, c, x as int, y as int, 2);
                }
                assert forall|c: int| 0 <= c < g.bpp() implies frame@[#[trigger] g.channel_index(
                    x as int,
                    y as int,
                    c,
                )] == if c < 3 {
                    value
                } else {
                    before[g.channel_index(x as int, y as int, c)]
                } by {
                    lemma_channel_in_frame(g, x as int, y as int, c);
                    if c == 3 {
                        lemma_channels_distinct(g, x as int, y as int, 3, x as int, y as int, 0);
                        lemma_channels_distinct(g, x as int, y as int, 3, x as int, y as int, 1);
                        lemma_channels_distinct(g, x as int, y as int, 3, x as int, y as int, 2);
                    }
                }
            }
            x += 1;
        }
        y += 1;
    }
}

/// The text an optional prefix contributes: nothing where it is unset.
pub open spec fn prefix_text(prefix: Option<Seq<char>>) -> Seq<char> {
    match prefix {
        Some(p) => p,
        None => Seq::empty(),
    }
}

pub open spec fn option_text(s: Option<String>) -> Option<Seq<char>> {
    match s {
        Some(t) => Some(t@),
        None => None,
    }
}

/// Clones an optional string, keeping its text.
pub fn clone_option_text(s: &Option<String>) -> (r: Option<String>)
    ensures
        option_text(r) == option_text(*s),
{
    match s {
        Some(t) => Some(t.clone()),
        None => None,
    }
}

/// What a frame encoder holds: its prefix, the negotiated geometry (none until
/// negotiation) and the index of the next frame.
pub ghost struct EncoderModel {
    pub prefix: Option<Seq<char>>,
    pub geometry: Option<VideoGeometry>,
    pub frame_index: u64,
}

/// Stamps successive frames of a stream segment with identifiers
/// `prefix ++ decimal(index)`, the index counting frames from 0.
pub struct FrameEncoder {
    prefix: Option<String>,
    geometry: Option<VideoGeometry>,
    frame_index: u64,
}

impl View for FrameEncoder {
    type V = EncoderModel;

    closed spec fn view(&self) -> EncoderModel {
        EncoderModel {
            prefix: option_text(self.prefix),
            geometry: self.geometry,
            frame_index: self.frame_index,
        }
    }
}

/// One successful encode step from `pre` to `post` that stamped `id`: the
/// identifier carries the prefix and the current index, and only the index
/// moves, by one.
pub open spec fn encode_step(pre: EncoderModel, post: EncoderModel, id: Identifier) -> bool {
    &&& pre.geometry is Some
    &&& id.prefix@ == prefix_text(pre.prefix)
    &&& id.sequence == pre.frame_index
    &&& post.prefix == pre.prefix
    &&& post.geometry == pre.geometry
    &&& post.frame_index == pre.frame_index + 1
}

impl FrameEncoder {
    /// An encoder with no prefix, waiting for its geometry.
    pub fn new() -> (r: FrameEncoder)
        ensures
            r@ == (EncoderModel { prefix: None, geometry: None, frame_index: 0 }),
    {
        FrameEncoder { prefix: None, geometry: None, frame_index: 0 }
    }

    pub fn prefix(&self) -> (r: Option<String>)
        ensures
            option_text(r) == self@.prefix,
    {
        clone_option_text(&self.prefix)
    }

    /// Sets the prefix of the identifiers of the frames to come.
    pub fn set_prefix(&mut self, prefix: Option<String>)
        ensures
            final(self)@ == (EncoderModel { prefix: option_text(prefix), ..old(self)@ }),
    {
        self.prefix = prefix;
    }

    pub fn geometry(&self) -> (r: Option<VideoGeometry>)
        ensures
            r == self@.geometry,
    {
        self.geometry
    }

    pub fn frame_index(&self) -> (r: u64)
        ensures
            r == self@.frame_index,
    {
        self.frame_index
    }

    /// Records the negotiated geometry of a new stream segment; the frame
    /// count starts again from 0.
    pub fn configure(&mut self, geometry: VideoGeometry)
        ensures
            final(self)@ == (EncoderModel {
                prefix: old(self)@.prefix,
                geometry: Some(geometry),
                frame_index: 0,
            }),
    {
        self.geometry = Some(geometry);
        self.frame_index = 0;
    }

    /// Stamps `frame` with the QR symbol of the current identifier, in place,
    /// and advances the frame index. On any failure neither the frame nor the
    /// encoder changes.
    pub fn encode_into(&mut self, frame: &mut Vec<u8>) -> (r: Result<Identifier, CodecError>)
        ensures
            match old(self)@.geometry {
                None => r == Err::<Identifier, CodecError>(CodecError::NotConfigured),
                Some(g) => if old(frame)@.len() < g.frame_size() {
                    r == Err::<Identifier, CodecError>(CodecError::BufferNotWritable)
                } else if old(self)@.frame_index == u64::MAX {
                    r == Err::<Identifier, CodecError>(CodecError::CounterExhausted)
                } else {
                    match qr_symbol(
                        identifier_text(
                            prefix_text(old(self)@.prefix),
                            old(self)@.frame_index as nat,
                        ),
                    ) {
                        None => r == Err::<Identifier, CodecError>(CodecError::SymbolEncodeFailed),
                        Some(symbol) => {
                            &&& r matches Ok(id) && encode_step(old(self)@, final(self)@, id)
                            &&& stamped(old(frame)@, final(frame)@, g, symbol.0, symbol.1, symbol.2)
                            &&& symbol.2.len() == symbol.0 * symbol.1
                            &&& forall|i: int|
                                0 <= i < symbol.2.len() ==> symbol.2[i] == 0 || symbol.2[i] == 255
                        },
                    }
                },
            },
            r is Err ==> final(self)@ == old(self)@ && final(frame)@ == old(frame)@,
    {
        let g = match self.geometry {
            None => return Err(CodecError::NotConfigured),
            Some(g) => g,
        };
        if !g.holds_frame(frame.len()) {
            return Err(CodecError::BufferNotWritable);
        }
        if self.frame_index == u64::MAX {
            return Err(CodecError::CounterExhausted);
        }
        let prefix = match &self.prefix {
            Some(p) => p.clone(),
            None => String::new(),
        };
        let id = Identifier::new(prefix, self.frame_index);
        let text = id.canonical_text();
        let bitmap = match render_symbol(&text) {
            None => return Err(CodecError::SymbolEncodeFailed),
            Some(b) => b,
        };
        stamp_bitmap(frame, g, &bitmap);
        self.frame_index = self.frame_index + 1;
        Ok(id)
    }
}

} // verus!
