//! Properties that relate several operations of the codec.
use vstd::prelude::*;
use vstd::utf8::valid_utf8;
use vstd::utf8::encode_utf8;
use vstd::arithmetic::div_mod::lemma_fundamental_div_mod;
use crate::encoder::{encode_step, prefix_text, stamped, EncoderModel};
use crate::frame::{lemma_channel_in_frame, VideoGeometry};
use crate::identifier::{identifier_text, lemma_identifier_text_injective, Identifier};
use crate::region::{Anchor, ScanRegion};
use crate::scanner::{intensity_image, select, Selection};

verus! {

/// Reading back a stamp: once a bitmap of 0 and 255 levels has been stamped
/// onto a frame it fits in, the grey image that a scan of the bitmap's own
/// top-left region hands to the detector is that bitmap, pixel for pixel.
pub proof fn lemma_stamp_reads_back(
    old: Seq<u8>,
    new: Seq<u8>,
    g: VideoGeometry,
    bw: u32,
    bh: u32,
    pixels: Seq<u8>,
)
    requires
        old.len() >= g.frame_size(),
        stamped(old, new, g, bw, bh, pixels),
        pixels.len() == bw * bh,
        forall|i: int| 0 <= i < pixels.len() ==> pixels[i] == 0 || pixels[i] == 255,
        0 < bw <= g.width,
        0 < bh <= g.height,
    ensures
        intensity_image(
            new,
            g,
            (ScanRegion { anchor: Anchor::TopLeft, width: bw, height: bh }).spec_rect(g),
        ) == pixels,
{
    let region = ScanRegion { anchor: Anchor::TopLeft, width: bw, height: bh };
    let rect = region.spec_rect(g);
    let image = intensity_image(new, g, rect);
    assert forall|k: int| 0 <= k < pixels.len() implies image[k] == pixels[k] by {
        let w = bw as int;
        let x = k % w;
        let y = k / w;
        lemma_fundamental_div_mod(k, w);
        assert(0 <= x < w);
        assert(0 <= y < bh) by (nonlinear_arith)
            requires
                k == w * y + x,
                0 <= x < w,
                0 <= k < w * bh,
        {
            if y >= bh {
                assert(w * y >= w * bh);
            }
            if y < 0 {
                assert(w * y <= -w);
            }
        }
        lemma_channel_in_frame(g, x, y, 0);
        lemma_channel_in_frame(g, x, y, 1);
        lemma_channel_in_frame(g, x, y, 2);
        assert(new[g.channel_index(x, y, 0)] == pixels[x + w * y]);
        assert(new[g.channel_index(x, y, 1)] == pixels[x + w * y]);
        assert(new[g.channel_index(x, y, 2)] == pixels[x + w * y]);
        assert(x + w * y == k);
    }
    assert(image =~= pixels);
}

/// Successive encodes without reconfiguration: the identifiers of a run of
/// encode steps are the prefix followed by consecutive numbers from the
/// starting index, so no two of them have the same text.
pub proof fn lemma_encode_run(models: Seq<EncoderModel>, ids: Seq<Identifier>)
    requires
        models.len() == ids.len() + 1,
        forall|i: int| 0 <= i < ids.len() ==> encode_step(models[i], models[i + 1], #[trigger] ids[i]),
    ensures
        forall|i: int|
            0 <= i < ids.len() ==> (#[trigger] ids[i]).text() == identifier_text(
                prefix_text(models[0].prefix),
                (models[0].frame_index + i) as nat,
            ),
        forall|i: int, j: int| 0 <= i < j < ids.len() ==> ids[i].text() != ids[j].text(),
{
    assert forall|i: int| 0 <= i < models.len() implies #[trigger] models[i].prefix == models[0].prefix
        && models[i].frame_index == models[0].frame_index + i by {
        lemma_encode_run_state(models, ids, i);
    }
    assert forall|i: int, j: int| 0 <= i < j < ids.len() implies ids[i].text() != ids[j].text() by {
        assert(models[i].prefix == models[0].prefix);
        assert(models[j].prefix == models[0].prefix);
        if ids[i].text() == ids[j].text() {
            lemma_identifier_text_injective(
                prefix_text(models[0].prefix),
                ids[i].sequence as nat,
                ids[j].sequence as nat,
            );
        }
    }
}

proof fn lemma_encode_run_state(models: Seq<EncoderModel>, ids: Seq<Identifier>, i: int)
    requires
        models.len() == ids.len() + 1,
        forall|i: int| 0 <= i < ids.len() ==> encode_step(models[i], models[i + 1], #[trigger] ids[i]),
        0 <= i < models.len(),
    ensures
        models[i].prefix == models[0].prefix,
        models[i].frame_index == models[0].frame_index + i,
    decreases i,
{
    if i > 0 {
        lemma_encode_run_state(models, ids, i - 1);
        assert(encode_step(models[i - 1], models[i], ids[i - 1]));
    }
}

/// Two byte strings that both begin a third one are one a prefix of the other.
proof fn lemma_common_prefixes(a: Seq<u8>, b: Seq<u8>, p: Seq<u8>)
    requires
        a.is_prefix_of(p),
        b.is_prefix_of(p),
        a.len() <= b.len(),
    ensures
        a.is_prefix_of(b),
{
    assert(a =~= b.subrange(0, a.len() as int));
}

/// Filtering: where every decoded payload is UTF-8 text that starts with a
/// prefix `other`, a scanner filtering on a prefix `filter` that diverges
/// from `other` (neither begins the other) selects nothing and drops the
/// frame.
pub proof fn lemma_foreign_prefix_dropped(
    attempts: Seq<Option<Seq<u8>>>,
    filter: Seq<char>,
    other: Seq<char>,
)
    requires
        forall|i: int|
            0 <= i < attempts.len() && #[trigger] attempts[i] is Some ==> valid_utf8(
                attempts[i]->0,
            ) && encode_utf8(other).is_prefix_of(attempts[i]->0),
        !encode_utf8(filter).is_prefix_of(encode_utf8(other)),
        !encode_utf8(other).is_prefix_of(encode_utf8(filter)),
    ensures
        select(attempts, Some(filter)) == Selection::Dropped,
    decreases attempts.len(),
{
    if attempts.len() > 0 {
        let rest = attempts.drop_first();
        assert forall|i: int| 0 <= i < rest.len() && #[trigger] rest[i] is Some implies valid_utf8(
            rest[i]->0,
        ) && encode_utf8(other).is_prefix_of(rest[i]->0) by {
            assert(rest[i] == attempts[i + 1]);
        }
        lemma_foreign_prefix_dropped(rest, filter, other);
        if let Some(p) = attempts[0] {
            assert(attempts[0] is Some);
            let f = encode_utf8(filter);
            let o = encode_utf8(other);
            if f.is_prefix_of(p) {
                if f.len() <= o.len() {
                    lemma_common_prefixes(f, o, p);
                } else {
                    lemma_common_prefixes(o, f, p);
                }
            }
        }
    }
}

} // verus!
