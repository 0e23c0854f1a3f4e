//! The elements the plugin provides.
use vstd::prelude::*;

verus! {

/// What an element of the plugin does to the frames that pass through it.
#[derive(Clone, Copy, PartialEq, Eq, Debug, Structural)]
pub enum ElementKind {
    /// Stamps each frame with its identifier (a `FrameEncoder`).
    Stamper,
    /// Reports the identifier each frame carries and drops the frames that
    /// carry none (a `FrameScanner`).
    Scanner,
}

/// One element to register with the host under `name`.
#[derive(Clone, Debug)]
pub struct ElementRegistration {
    pub name: String,
    pub kind: ElementKind,
}

/// Lists the plugin's elements, in registration order, after those already
/// in `registrations`: the stamper `rsframeid` and the scanner
/// `rsframeidfilter`. Always succeeds.
pub fn plugin_init(registrations: &mut Vec<ElementRegistration>) -> (r: bool)
    ensures
        r,
        final(registrations)@.len() == old(registrations)@.len() + 2,
        final(registrations)@.subrange(0, old(registrations)@.len() as int)
            == old(registrations)@,
        final(registrations)@[old(registrations)@.len() as int].name@ == "rsframeid"@,
        final(registrations)@[old(registrations)@.len() as int].kind == ElementKind::Stamper,
        final(registrations)@[old(registrations)@.len() + 1int].name@ == "rsframeidfilter"@,
        final(registrations)@[old(registrations)@.len() + 1int].kind == ElementKind::Scanner,
{
    registrations.push(ElementRegistration { name: "rsframeid".to_owned(), kind: ElementKind::Stamper });
    registrations.push(
        ElementRegistration { name: "rsframeidfilter".to_owned(), kind: ElementKind::Scanner },
    );
    assert(registrations@.subrange(0, old(registrations)@.len() as int) =~= old(registrations)@);
    true
}

} // verus!
