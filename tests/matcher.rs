use frameid::codeset::CodeSet;
use frameid::matcher::{CaptureSession, ReferenceSession};
use frameid::plugin::{plugin_init, ElementKind};

fn sorted(set: &CodeSet) -> Vec<String> {
    let mut v = set.to_vec();
    v.sort();
    v
}

fn s(t: &str) -> String {
    t.to_string()
}

#[test]
fn duplicates_are_rejected_and_consumed_once() {
    let mut reference = ReferenceSession::new(s("f:"));
    let kept: Vec<bool> = ["f:0", "f:0", "f:1"].iter().map(|p| reference.on_found(&s(p))).collect();
    assert_eq!(kept, vec![true, false, true]);
    let reference = reference.finish();
    assert_eq!(sorted(&reference), vec!["f:0", "f:1"]);

    let mut capture = CaptureSession::new(reference, s("f:"));
    let kept: Vec<bool> = ["f:1", "f:0", "f:0"].iter().map(|p| capture.on_found(&s(p))).collect();
    assert_eq!(kept, vec![true, true, false]);
    assert!(capture.remaining().is_empty());
    let result = capture.finish();
    assert_eq!(sorted(&result.matched), vec!["f:0", "f:1"]);
    assert!(result.missing_from_capture.is_empty());
    assert!(result.missing_from_reference.is_empty());
}

#[test]
fn dropped_frame_is_missing_from_capture() {
    let mut reference = ReferenceSession::new(s("f:"));
    for p in ["f:0", "f:1", "f:2"] {
        assert!(reference.on_found(&s(p)));
    }
    let mut capture = CaptureSession::new(reference.finish(), s("f:"));
    for p in ["f:0", "f:2"] {
        assert!(capture.on_found(&s(p)));
    }
    let result = capture.finish();
    assert_eq!(sorted(&result.missing_from_capture), vec!["f:1"]);
    assert_eq!(sorted(&result.matched), vec!["f:0", "f:2"]);
}

#[test]
fn unmarked_payloads_are_ignored() {
    let mut reference = ReferenceSession::new(s("f:"));
    assert!(!reference.on_found(&s("s:0")));
    assert!(!reference.on_found(&s("e:3")));
    assert!(reference.on_found(&s("f:3")));
    assert_eq!(reference.reference().len(), 1);
    let mut capture = CaptureSession::new(reference.finish(), s("f:"));
    assert!(!capture.on_found(&s("e:3")));
    assert!(!capture.on_found(&s("f:4")));
    assert_eq!(capture.remaining().len(), 1);
}

#[test]
fn code_set_insert_and_remove() {
    let mut set = CodeSet::new();
    assert!(set.is_empty());
    assert!(set.insert(s("a")));
    assert!(!set.insert(s("a")));
    assert!(set.insert(s("b")));
    assert_eq!(set.len(), 2);
    assert!(set.contains(&s("a")));
    assert!(set.remove(&s("a")));
    assert!(!set.remove(&s("a")));
    assert!(!set.contains(&s("a")));
    assert_eq!(set.len(), 1);
    let copy = set.duplicate();
    assert_eq!(sorted(&copy), vec!["b"]);
    let mut other = CodeSet::new();
    other.insert(s("b"));
    set.insert(s("c"));
    assert_eq!(sorted(&set.difference(&other)), vec!["c"]);
}

#[test]
fn plugin_lists_its_two_elements() {
    let mut regs = Vec::new();
    assert!(plugin_init(&mut regs));
    assert_eq!(regs.len(), 2);
    assert_eq!(regs[0].name, "rsframeid");
    assert_eq!(regs[0].kind, ElementKind::Stamper);
    assert_eq!(regs[1].name, "rsframeidfilter");
    assert_eq!(regs[1].kind, ElementKind::Scanner);
}
