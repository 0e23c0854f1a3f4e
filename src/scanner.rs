//! The frame scanner: reads a region of a frame as a grey image, decodes the
//! QR symbols in it and picks the first payload that passes the prefix filter.
use vstd::prelude::*;
use vstd::utf8::valid_utf8;
use vstd::utf8::encode_utf8;
use vstd::arithmetic::div_mod::lemma_fundamental_div_mod_converse;
use crate::encoder::{clone_option_text, option_text};
use crate::error::CodecError;
use crate::frame::{lemma_cell_in_grid, lemma_channel_in_frame, VideoGeometry};
use crate::region::{Rect, ScanRegion};
use crate::symbol::{attempt_views, detect_symbols, qr_decoded, utf8_text};

verus! {

/// Grey level of pixel `(x, y)`: each colour channel is divided by 3 before
/// the three are summed. Summing first would round better; the per-channel
/// division is kept so that the grey levels match those of existing scans.
pub open spec fn luma(frame: Seq<u8>, g: VideoGeometry, x: int, y: int) -> u8 {
    let i = g.channel_index(x, y, 0);
    (frame[i] / 3 + frame[i + 1] / 3 + frame[i + 2] / 3) as u8
}

/// The grey image of rectangle `r` of a frame, row by row.
pub open spec fn intensity_image(frame: Seq<u8>, g: VideoGeometry, r: Rect) -> Seq<u8> {
    Seq::new(
        (r.width * r.height) as nat,
        |k: int| luma(frame, g, r.x + k % (r.width as int), r.y + k / (r.width as int)),
    )
}

/// Reads rectangle `r` of `frame` as a grey image.
pub fn extract_intensity(frame: &Vec<u8>, g: VideoGeometry, r: Rect) -> (image: Vec<u8>)
    requires
        frame@.len() >= g.frame_size(),
        r.inside(g),
    ensures
        image@ == intensity_image(frame@, g, r),
{
    let bpp = g.format.bytes_per_pixel();
    let width = g.width as usize;
    let rw = r.width as usize;
    let rh = r.height as usize;
    let rx = r.x as usize;
    let ry = r.y as usize;
    let mut image: Vec<u8> = Vec::new();
    let mut y: usize = 0;
    while y < rh
        invariant
            frame@.len() >= g.frame_size(),
            r.inside(g),
            bpp == g.bpp(),
            width == g.width,
            rw == r.width,
            rh == r.height,
            rx == r.x,
            ry == r.y,
            y <= rh,
            image@.len() == rw * y,
            forall|k: int|
                0 <= k < image@.len() ==> image@[k] == luma(
                    frame@,
                    g,
                    r.x + k % (r.width as int),
                    r.y + k / (r.width as int),
                ),
        decreases rh - y,
    {
        let mut x: usize = 0;
        while x < rw
            invariant
                frame@.len() >= g.frame_size(),
                r.inside(g),
                bpp == g.bpp(),
                width == g.width,
                rw == r.width,
                rh == r.height,
                rx == r.x,
                ry == r.y,
                y < rh,
                x <= rw,
                image@.len() == rw * y + x,
                forall|k: int|
                    0 <= k < image@.len() ==> image@[k] == luma(
                        frame@,
                        g,
                        r.x + k % (r.width as int),
                        r.y + k / (r.width as int),
                    ),
            decreases rw - x,
        {
            let n_bytes = frame.len();
            let px = rx + x;
            let py = ry + y;
            proof {
                lemma_cell_in_grid(g.width as int, g.height as int, px as int, py as int);
                lemma_channel_in_frame(g, px as int, py as int, 0);
                lemma_channel_in_frame(g, px as int, py as int, 2);
                let p = px + width * py;
                assert(p <= bpp * p) by (nonlinear_arith)
                    requires
                        0 <= p,
                        1 <= bpp,
                ;
                assert(width * py <= p);
                assert(rw * y == y * rw) by (nonlinear_arith);
                lemma_fundamental_div_mod_converse(
                    (rw * y + x) as int,
                    rw as int,
                    y as int,
                    x as int,
                );
            }
            let base = bpp * (px + width * py);
            let grey = frame[base] / 3 + frame[base + 1] / 3 + frame[base + 2] / 3;
            image.push(grey);
            x += 1;
        }
        assert(rw * y + rw == rw * (y + 1)) by (nonlinear_arith);
        y += 1;
    }
    assert(image@ =~= intensity_image(frame@, g, r));
    image
}

/// Whether `text` begins with `prefix`.
pub fn starts_with(text: &[u8], prefix: &[u8]) -> (r: bool)
    ensures
        r == prefix@.is_prefix_of(text@),
{
    if prefix.len() > text.len() {
        return false;
    }
    let mut i: usize = 0;
    while i < prefix.len()
        invariant
            prefix@.len() <= text@.len(),
            i <= prefix@.len(),
            forall|j: int| 0 <= j < i ==> prefix@[j] == text@[j],
        decreases prefix@.len() - i,
    {
        if prefix[i] != text[i] {
            return false;
        }
        i += 1;
    }
    assert(prefix@ =~= text@.subrange(0, prefix@.len() as int));
    true
}

/// What a scan selects among the decoded symbols.
pub ghost enum Selection {
    /// This payload is the frame's identifier.
    Found(Seq<u8>),
    /// No symbol carries a relevant identifier.
    Dropped,
    /// A symbol was reached whose payload is not UTF-8 text.
    Malformed,
}

/// Whether a payload passes the prefix filter: any payload passes where no
/// filter is set.
pub open spec fn accepts(filter: Option<Seq<char>>, payload: Seq<u8>) -> bool {
    match filter {
        Some(f) => encode_utf8(f).is_prefix_of(payload),
        None => true,
    }
}

/// The first decoded payload that passes the filter, in the detector's order;
/// failed decodes are skipped, and a payload that is not UTF-8 stops the scan.
pub open spec fn select(attempts: Seq<Option<Seq<u8>>>, filter: Option<Seq<char>>) -> Selection
    decreases attempts.len(),
{
    if attempts.len() == 0 {
        Selection::Dropped
    } else {
        match attempts[0] {
            None => select(attempts.drop_first(), filter),
            Some(p) => if !valid_utf8(p) {
                Selection::Malformed
            } else if accepts(filter, p) {
                Selection::Found(p)
            } else {
                select(attempts.drop_first(), filter)
            },
        }
    }
}

/// The result of scanning one frame.
#[derive(Clone, Debug, PartialEq, Eq)]
pub enum ScanOutcome {
    /// The frame carries this identifier.
    Found(String),
    /// The frame carries no relevant identifier and is left out of the output.
    Dropped,
}

/// Whether the returned result is the one selection `s` calls for.
pub open spec fn reports(r: Result<ScanOutcome, CodecError>, s: Selection) -> bool {
    match s {
        Selection::Found(p) => r matches Ok(ScanOutcome::Found(t)) && encode_utf8(t@) == p,
        Selection::Dropped => r matches Ok(ScanOutcome::Dropped),
        Selection::Malformed => r == Err::<ScanOutcome, CodecError>(CodecError::InvalidPayload),
    }
}

/// Picks the identifier among the detector's results (see `select`).
pub fn select_payload(attempts: &Vec<Option<Vec<u8>>>, filter: &Option<String>) -> (r: Result<
    ScanOutcome,
    CodecError,
>)
    ensures
        reports(r, select(attempt_views(attempts@), option_text(*filter))),
{
    let ghost views = attempt_views(attempts@);
    let ghost f = option_text(*filter);
    let mut i: usize = 0;
    assert(views.skip(0) =~= views);
    while i < attempts.len()
        invariant
            views == attempt_views(attempts@),
            f == option_text(*filter),
            i <= attempts@.len(),
            select(views, f) == select(views.skip(i as int), f),
        decreases attempts@.len() - i,
    {
        assert(views.skip(i as int).drop_first() =~= views.skip(i + 1));
        if let Some(payload) = &attempts[i] {
            match utf8_text(payload.as_slice()) {
                None => return Err(CodecError::InvalidPayload),
                Some(text) => {
                    let pass = match filter {
                        Some(p) => starts_with(payload.as_slice(), p.as_str().as_bytes()),
                        None => true,
                    };
                    if pass {
                        return Ok(ScanOutcome::Found(text.to_owned()));
                    }
                },
            }
        }
        i += 1;
    }
    Ok(ScanOutcome::Dropped)
}

/// What a frame scanner holds: its prefix filter, its scan region and the
/// negotiated geometry (none until negotiation).
pub ghost struct ScannerModel {
    pub prefix: Option<Seq<char>>,
    pub region: ScanRegion,
    pub geometry: Option<VideoGeometry>,
}

/// Looks for the identifier a frame carries in one region of the frame.
pub struct FrameScanner {
    prefix: Option<String>,
    region: ScanRegion,
    geometry: Option<VideoGeometry>,
}

impl View for FrameScanner {
    type V = ScannerModel;

    closed spec fn view(&self) -> ScannerModel {
        ScannerModel {
            prefix: option_text(self.prefix),
            region: self.region,
            geometry: self.geometry,
        }
    }
}

/// The largest grey image, in pixels, that the QR detector is handed.
pub const MAX_SCAN_AREA: u64 = 0x7fff_ffff;

impl FrameScanner {
    /// A scanner with no filter that reads the whole frame, waiting for its
    /// geometry.
    pub fn new() -> (r: FrameScanner)
        ensures
            r@ == (ScannerModel {
                prefix: None,
                region: ScanRegion { anchor: crate::region::Anchor::TopLeft, width: 0, height: 0 },
                geometry: None,
            }),
    {
        FrameScanner { prefix: None, region: ScanRegion::full_frame(), geometry: None }
    }

    pub fn prefix(&self) -> (r: Option<String>)
        ensures
            option_text(r) == self@.prefix,
    {
        clone_option_text(&self.prefix)
    }

    /// Sets the prefix that a payload must start with to be reported.
    pub fn set_prefix(&mut self, prefix: Option<String>)
        ensures
            final(self)@ == (ScannerModel { prefix: option_text(prefix), ..old(self)@ }),
    {
        self.prefix = prefix;
    }

    pub fn region(&self) -> (r: ScanRegion)
        ensures
            r == self@.region,
    {
        self.region
    }

    pub fn set_region(&mut self, region: ScanRegion)
        ensures
            final(self)@ == (ScannerModel { region: region, ..old(self)@ }),
    {
        self.region = region;
    }

    pub fn geometry(&self) -> (r: Option<VideoGeometry>)
        ensures
            r == self@.geometry,
    {
        self.geometry
    }

    /// Records the negotiated geometry of a new stream segment.
    pub fn configure(&mut self, geometry: VideoGeometry)
        ensures
            final(self)@ == (ScannerModel { geometry: Some(geometry), ..old(self)@ }),
    {
        self.geometry = Some(geometry);
    }

    /// Scans `frame` for the identifier it carries. Besides the failures that
    /// the frame and the configuration decide, the detector itself may be
    /// unavailable (it allocates); otherwise the result is the selection among
    /// what it detects in the grey image of the scan region.
    pub fn scan(&self, frame: &Vec<u8>) -> (r: Result<ScanOutcome, CodecError>)
        ensures
            match self@.geometry {
                None => r == Err::<ScanOutcome, CodecError>(CodecError::NotConfigured),
                Some(g) => if frame@.len() < g.frame_size() {
                    r == Err::<ScanOutcome, CodecError>(CodecError::BufferNotReadable)
                } else if !self@.region.fits(g) {
                    r == Err::<ScanOutcome, CodecError>(CodecError::RegionOutsideFrame)
                } else {
                    let rect = self@.region.spec_rect(g);
                    if rect.width * rect.height > MAX_SCAN_AREA {
                        r == Err::<ScanOutcome, CodecError>(CodecError::DecoderUnavailable)
                    } else {
                        r == Err::<ScanOutcome, CodecError>(CodecError::DecoderUnavailable)
                            || reports(
                            r,
                            select(
                                qr_decoded(
                                    intensity_image(frame@, g, rect),
                                    rect.width,
                                    rect.height,
                                ),
                                self@.prefix,
                            ),
                        )
                    }
                },
            },
    {
        let g = match self.geometry {
            None => return Err(CodecError::NotConfigured),
            Some(g) => g,
        };
        if !g.holds_frame(frame.len()) {
            return Err(CodecError::BufferNotReadable);
        }
        let rect = match self.region.rect(&g) {
            None => return Err(CodecError::RegionOutsideFrame),
            Some(rect) => rect,
        };
        let rw = rect.width as u64;
        let rh = rect.height as u64;
        assert(rw * rh <= 0xffff_ffff * 0xffff_ffff) by (nonlinear_arith)
            requires
                rw <= 0xffff_ffff,
                rh <= 0xffff_ffff,
        ;
        let area = rw * rh;
        if area > MAX_SCAN_AREA {
            return Err(CodecError::DecoderUnavailable);
        }
        let image = extract_intensity(frame, g, rect);
        match detect_symbols(&image, rect.width, rect.height) {
            None => Err(CodecError::DecoderUnavailable),
            Some(attempts) => select_payload(&attempts, &self.prefix),
        }
    }
}

} // verus!
