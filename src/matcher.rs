//! Reconciliation of the identifiers seen in a reference pass and in a
//! capture pass of the same video.
use vstd::prelude::*;
use vstd::utf8::encode_utf8;
use crate::codeset::CodeSet;
use crate::scanner::starts_with;

verus! {

/// Whether a payload belongs to the session: its text begins with the
/// session's marker.
pub open spec fn is_marked(marker: Seq<char>, payload: Seq<char>) -> bool {
    encode_utf8(marker).is_prefix_of(encode_utf8(payload))
}

fn marked(marker: &String, payload: &String) -> (r: bool)
    ensures
        r == is_marked(marker@, payload@),
{
    starts_with(payload.as_str().as_bytes(), marker.as_str().as_bytes())
}

/// What a reference session holds: its marker and the identifiers accepted
/// so far.
pub ghost struct ReferenceModel {
    pub marker: Seq<char>,
    pub reference: Set<Seq<char>>,
}

/// The reference pass: records each marked identifier the first time it is
/// seen, and rejects its repeats.
pub struct ReferenceSession {
    marker: String,
    reference: CodeSet,
}

impl View for ReferenceSession {
    type V = ReferenceModel;

    closed spec fn view(&self) -> ReferenceModel {
        ReferenceModel { marker: self.marker@, reference: self.reference@ }
    }
}

impl ReferenceSession {
    pub closed spec fn wf(&self) -> bool {
        self.reference.wf()
    }

    pub fn new(marker: String) -> (r: ReferenceSession)
        ensures
            r.wf(),
            r@ == (ReferenceModel { marker: marker@, reference: Set::empty() }),
    {
        ReferenceSession { marker, reference: CodeSet::new() }
    }

    /// Takes in one decoded payload; says whether its frame is kept: it is
    /// when the payload is marked and new.
    pub fn on_found(&mut self, payload: &String) -> (keep: bool)
        requires
            old(self).wf(),
        ensures
            final(self).wf(),
            final(self)@.marker == old(self)@.marker,
            keep == (is_marked(old(self)@.marker, payload@) && !old(self)@.reference.contains(
                payload@,
            )),
            final(self)@.reference == if is_marked(old(self)@.marker, payload@) {
                old(self)@.reference.insert(payload@)
            } else {
                old(self)@.reference
            },
    {
        if !marked(&self.marker, payload) {
            return false;
        }
        self.reference.insert(payload.clone())
    }

    /// The identifiers accepted so far.
    pub fn reference(&self) -> (r: &CodeSet)
        requires
            self.wf(),
        ensures
            r.wf(),
            r@ == self@.reference,
    {
        &self.reference
    }

    /// Ends the session, handing over the accepted identifiers.
    pub fn finish(self) -> (r: CodeSet)
        requires
            self.wf(),
        ensures
            r.wf(),
            r@ == self@.reference,
    {
        self.reference
    }
}

/// The outcome of a reconciliation.
pub struct MatchResult {
    /// Reference identifiers that the capture showed.
    pub matched: CodeSet,
    /// Reference identifiers that the capture never showed: dropped frames.
    pub missing_from_capture: CodeSet,
    /// Capture identifiers that the reference never showed; a capture session
    /// only draws on the reference, so this stays empty.
    pub missing_from_reference: CodeSet,
}

impl MatchResult {
    pub open spec fn wf(&self) -> bool {
        self.matched.wf() && self.missing_from_capture.wf() && self.missing_from_reference.wf()
    }
}

/// What a capture session holds: its marker, the reference it checks against
/// and the reference identifiers not seen yet.
pub ghost struct CaptureModel {
    pub marker: Seq<char>,
    pub reference: Set<Seq<char>>,
    pub remaining: Set<Seq<char>>,
}

/// The capture pass: each marked identifier consumes its reference entry;
/// one that is not (or no longer) there is rejected.
pub struct CaptureSession {
    marker: String,
    reference: CodeSet,
    remaining: CodeSet,
}

impl View for CaptureSession {
    type V = CaptureModel;

    closed spec fn view(&self) -> CaptureModel {
        CaptureModel {
            marker: self.marker@,
            reference: self.reference@,
            remaining: self.remaining@,
        }
    }
}

impl CaptureSession {
    pub closed spec fn wf(&self) -> bool {
        &&& self.reference.wf()
        &&& self.remaining.wf()
        &&& self.remaining@.subset_of(self.reference@)
    }

    /// Starts the capture pass against the final reference of a reference
    /// pass: every reference identifier is still to be seen.
    pub fn new(reference: CodeSet, marker: String) -> (r: CaptureSession)
        requires
            reference.wf(),
        ensures
            r.wf(),
            r@ == (CaptureModel {
                marker: marker@,
                reference: reference@,
                remaining: reference@,
            }),
    {
        let remaining = reference.duplicate();
        CaptureSession { marker, reference, remaining }
    }

    /// Takes in one decoded payload; says whether its frame is kept: it is
    /// when the payload is marked and still to be seen.
    pub fn on_found(&mut self, payload: &String) -> (keep: bool)
        requires
            old(self).wf(),
        ensures
            final(self).wf(),
            final(self)@.marker == old(self)@.marker,
            final(self)@.reference == old(self)@.reference,
            keep == (is_marked(old(self)@.marker, payload@) && old(self)@.remaining.contains(
                payload@,
            )),
            final(self)@.remaining == if is_marked(old(self)@.marker, payload@) {
                old(self)@.remaining.remove(payload@)
            } else {
                old(self)@.remaining
            },
    {
        if !marked(&self.marker, payload) {
            return false;
        }
        self.remaining.remove(payload)
    }

    /// The reference identifiers not seen yet.
    pub fn remaining(&self) -> (r: &CodeSet)
        requires
            self.wf(),
        ensures
            r.wf(),
            r@ == self@.remaining,
    {
        &self.remaining
    }

    /// Reconciles the two passes: what the capture did not show is missing
    /// from it, the rest of the reference is matched.
    pub fn finish(&self) -> (r: MatchResult)
        requires
            self.wf(),
        ensures
            r.wf(),
            r.matched@ == self@.reference.difference(self@.remaining),
            r.missing_from_capture@ == self@.remaining,
            r.missing_from_reference@ == Set::<Seq<char>>::empty(),
            r.matched@.union(r.missing_from_capture@) == self@.reference,
            r.matched@.disjoint(r.missing_from_capture@),
    {
        let matched = self.reference.difference(&self.remaining);
        let missing_from_capture = self.remaining.duplicate();
        let missing_from_reference = CodeSet::new();
        assert(matched@.union(missing_from_capture@) =~= self@.reference);
        assert(matched@.disjoint(missing_from_capture@));
        MatchResult { matched, missing_from_capture, missing_from_reference }
    }
}

} // verus!
