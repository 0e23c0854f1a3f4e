//! A set of identifier texts, each held once.
use vstd::prelude::*;

verus! {

/// A set of identifier texts. Insertion reports whether the text was new,
/// removal whether it was there.
pub struct CodeSet {
    codes: Vec<String>,
}

impl View for CodeSet {
    type V = Set<Seq<char>>;

    closed spec fn view(&self) -> Set<Seq<char>> {
        self.texts().to_set()
    }
}

impl CodeSet {
    closed spec fn texts(&self) -> Seq<Seq<char>> {
        self.codes@.map_values(|s: String| s@)
    }

    /// Each text is held once.
    pub closed spec fn wf(&self) -> bool {
        self.texts().no_duplicates()
    }

    /// The empty set.
    pub fn new() -> (r: CodeSet)
        ensures
            r.wf(),
            r@ == Set::<Seq<char>>::empty(),
    {
        let r = CodeSet { codes: Vec::new() };
        assert(r@ =~= Set::<Seq<char>>::empty());
        r
    }

    /// Position of `code` among the held texts, if it is there.
    fn find(&self, code: &String) -> (r: Option<usize>)
        ensures
            match r {
                Some(i) => i < self.codes@.len() && self.texts()[i as int] == code@,
                None => !self@.contains(code@),
            },
    {
        let mut i: usize = 0;
        while i < self.codes.len()
            invariant
                i <= self.codes@.len(),
                forall|j: int| 0 <= j < i ==> self.texts()[j] != code@,
            decreases self.codes@.len() - i,
        {
            if self.codes[i] == *code {
                return Some(i);
            }
            i += 1;
        }
        None
    }

    pub fn contains(&self, code: &String) -> (r: bool)
        ensures
            r == self@.contains(code@),
    {
        match self.find(code) {
            Some(i) => {
                assert(self.texts().contains(code@) ==> self@.contains(code@));
                assert(self.texts()[i as int] == code@);
                true
            },
            None => false,
        }
    }

    /// Adds `code` unless it is already there; says whether it was added.
    pub fn insert(&mut self, code: String) -> (inserted: bool)
        requires
            old(self).wf(),
        ensures
            final(self).wf(),
            inserted == !old(self)@.contains(code@),
            final(self)@ == old(self)@.insert(code@),
    {
        if self.contains(&code) {
            assert(old(self)@.insert(code@) =~= old(self)@);
            return false;
        }
        let ghost before = self.texts();
        self.codes.push(code);
        assert(self.texts() =~= before.push(code@));
        assert(self@ =~= old(self)@.insert(code@)) by {
            assert forall|t: Seq<char>| self@.contains(t) implies old(self)@.insert(code@).contains(
                t,
            ) by {
                let k = choose|k: int| 0 <= k < self.texts().len() && self.texts()[k] == t;
                if k < before.len() {
                    assert(before[k] == t);
                }
            }
            assert forall|t: Seq<char>| old(self)@.insert(code@).contains(t) implies self@.contains(
                t,
            ) by {
                if t == code@ {
                    assert(self.texts()[before.len() as int] == t);
                } else {
                    let k = choose|k: int| 0 <= k < before.len() && before[k] == t;
                    assert(self.texts()[k] == t);
                }
            }
        }
        true
    }

    /// Takes `code` out if it is there; says whether it was.
    pub fn remove(&mut self, code: &String) -> (removed: bool)
        requires
            old(self).wf(),
        ensures
            final(self).wf(),
            removed == old(self)@.contains(code@),
            final(self)@ == old(self)@.remove(code@),
    {
        match self.find(code) {
            None => {
                assert(old(self)@.remove(code@) =~= old(self)@);
                false
            },
            Some(i) => {
                let ghost before = self.texts();
                assert(before.contains(code@));
                self.codes.remove(i);
                assert(self.texts() =~= before.remove(i as int));
                assert(self@ =~= old(self)@.remove(code@)) by {
                    assert forall|t: Seq<char>| self@.contains(t) implies old(self)@.remove(
                        code@,
                    ).contains(t) by {
                        let k = choose|k: int| 0 <= k < self.texts().len() && self.texts()[k] == t;
                        if k < i {
                            assert(before[k] == t);
                        } else {
                            assert(before[k + 1] == t);
                        }
                    }
                    assert forall|t: Seq<char>| old(self)@.remove(code@).contains(
                        t,
                    ) implies self@.contains(t) by {
                        let k = choose|k: int| 0 <= k < before.len() && before[k] == t;
                        if k < i {
                            assert(self.texts()[k] == t);
                        } else {
                            assert(self.texts()[k - 1] == t);
                        }
                    }
                }
                true
            },
        }
    }

    pub fn len(&self) -> (r: usize)
        requires
            self.wf(),
        ensures
            r == self@.len(),
    {
        proof {
            self.texts().unique_seq_to_set();
        }
        self.codes.len()
    }

    pub fn is_empty(&self) -> (r: bool)
        ensures
            r == (self@ == Set::<Seq<char>>::empty()),
    {
        if self.codes.len() == 0 {
            assert(self@ =~= Set::<Seq<char>>::empty());
            true
        } else {
            assert(self@.contains(self.texts()[0]));
            false
        }
    }

    /// The held texts, each once, in no particular order.
    pub fn to_vec(&self) -> (r: Vec<String>)
        requires
            self.wf(),
        ensures
            r@.map_values(|s: String| s@).no_duplicates(),
            r@.map_values(|s: String| s@).to_set() == self@,
    {
        let mut r: Vec<String> = Vec::new();
        let mut i: usize = 0;
        while i < self.codes.len()
            invariant
                i <= self.codes@.len(),
                r@.map_values(|s: String| s@) == self.texts().take(i as int),
            decreases self.codes@.len() - i,
        {
            let ghost before = r@.map_values(|s: String| s@);
            r.push(self.codes[i].clone());
            assert(r@.map_values(|s: String| s@) =~= before.push(self.texts()[i as int]));
            assert(self.texts().take(i + 1) =~= self.texts().take(i as int).push(
                self.texts()[i as int],
            ));
            i += 1;
        }
        assert(self.texts().take(i as int) =~= self.texts());
        r
    }

    /// A second set holding the same texts.
    pub fn duplicate(&self) -> (r: CodeSet)
        requires
            self.wf(),
        ensures
            r.wf(),
            r@ == self@,
    {
        let codes = self.to_vec();
        CodeSet { codes }
    }

    /// The texts of this set that `other` does not hold.
    pub fn difference(&self, other: &CodeSet) -> (r: CodeSet)
        requires
            self.wf(),
            other.wf(),
        ensures
            r.wf(),
            r@ == self@.difference(other@),
    {
        let mut r = CodeSet::new();
        let mut i: usize = 0;
        while i < self.codes.len()
            invariant
                i <= self.codes@.len(),
                r.wf(),
                r@ == self.texts().take(i as int).to_set().difference(other@),
            decreases self.codes@.len() - i,
        {
            let code = &self.codes[i];
            let ghost t = code@;
            assert(self.texts().take(i + 1) =~= self.texts().take(i as int).push(t));
            assert(self.texts().take(i + 1).to_set() =~= self.texts().take(i as int).to_set().insert(
                t,
            )) by {
                let s0 = self.texts().take(i as int);
                let s1 = self.texts().take(i + 1);
                assert forall|u: Seq<char>| s1.contains(u) implies s0.to_set().insert(t).contains(
                    u,
                ) by {
                    let k = choose|k: int| 0 <= k < s1.len() && s1[k] == u;
                    if k < i {
                        assert(s0[k] == u);
                    }
                }
                assert forall|u: Seq<char>| s0.to_set().insert(t).contains(u) implies s1.contains(
                    u,
                ) by {
                    if u == t {
                        assert(s1[i as int] == u);
                    } else {
                        let k = choose|k: int| 0 <= k < s0.len() && s0[k] == u;
                        assert(s1[k] == u);
                    }
                }
            }
            if !other.contains(code) {
                r.insert(code.clone());
            }
            assert(r@ =~= self.texts().take(i + 1).to_set().difference(other@));
            i += 1;
        }
        assert(self.texts().take(i as int) =~= self.texts());
        r
    }
}

} // verus!
