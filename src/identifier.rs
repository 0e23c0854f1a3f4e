//! Identifiers and their canonical text form `prefix ++ decimal(sequence)`.
use vstd::prelude::*;

verus! {

/// The character of a decimal digit `d < 10`.
pub open spec fn digit_char(d: nat) -> char {
    if d == 0 {
        '0'
    } else if d == 1 {
        '1'
    } else if d == 2 {
        '2'
    } else if d == 3 {
        '3'
    } else if d == 4 {
        '4'
    } else if d == 5 {
        '5'
    } else if d == 6 {
        '6'
    } else if d == 7 {
        '7'
    } else if d == 8 {
        '8'
    } else {
        '9'
    }
}

/// Decimal notation of `n`, most significant digit first, without leading zeros.
pub open spec fn decimal(n: nat) -> Seq<char>
    decreases n,
{
    if n < 10 {
        seq![digit_char(n)]
    } else {
        decimal(n / 10).push(digit_char(n % 10))
    }
}

/// Canonical text of the identifier with the given prefix and sequence number.
pub open spec fn identifier_text(prefix: Seq<char>, sequence: nat) -> Seq<char> {
    prefix + decimal(sequence)
}

pub proof fn lemma_decimal_not_empty(n: nat)
    ensures
        decimal(n).len() >= 1,
    decreases n,
{
    if n >= 10 {
        lemma_decimal_not_empty(n / 10);
    }
}

/// Distinct numbers have distinct decimal notations.
pub proof fn lemma_decimal_injective(a: nat, b: nat)
    requires
        decimal(a) == decimal(b),
    ensures
        a == b,
    decreases a,
{
    if a < 10 && b < 10 {
        assert(decimal(a)[0] == digit_char(a));
        assert(decimal(b)[0] == digit_char(b));
    } else if a < 10 {
        lemma_decimal_not_empty(b / 10);
        assert(decimal(a).len() == 1);
    } else if b < 10 {
        lemma_decimal_not_empty(a / 10);
        assert(decimal(b).len() == 1);
    } else {
        let da = decimal(a / 10);
        let db = decimal(b / 10);
        assert(decimal(a).drop_last() =~= da);
        assert(decimal(b).drop_last() =~= db);
        assert(decimal(a).last() == digit_char(a % 10));
        assert(decimal(b).last() == digit_char(b % 10));
        lemma_decimal_injective(a / 10, b / 10);
        assert(decimal(a)[decimal(a).len() - 1] == digit_char(a % 10));
        assert(decimal(b)[decimal(b).len() - 1] == digit_char(b % 10));
        vstd::arithmetic::div_mod::lemma_fundamental_div_mod(a as int, 10);
        vstd::arithmetic::div_mod::lemma_fundamental_div_mod(b as int, 10);
    }
}

/// Two identifiers that share a prefix have equal texts only when their
/// sequence numbers are equal.
pub proof fn lemma_identifier_text_injective(prefix: Seq<char>, a: nat, b: nat)
    requires
        identifier_text(prefix, a) == identifier_text(prefix, b),
    ensures
        a == b,
{
    let ta = identifier_text(prefix, a);
    let tb = identifier_text(prefix, b);
    assert(ta.skip(prefix.len() as int) =~= decimal(a));
    assert(tb.skip(prefix.len() as int) =~= decimal(b));
    lemma_decimal_injective(a, b);
}

/// The one-character string of the decimal digit `d`.
fn digit_str(d: u64) -> (r: &'static str)
    requires
        d < 10,
    ensures
        r@ == seq![digit_char(d as nat)],
{
    proof {
        reveal_strlit("0");
        reveal_strlit("1");
        reveal_strlit("2");
        reveal_strlit("3");
        reveal_strlit("4");
        reveal_strlit("5");
        reveal_strlit("6");
        reveal_strlit("7");
        reveal_strlit("8");
        reveal_strlit("9");
    }
    if d == 0 {
        "0"
    } else if d == 1 {
        "1"
    } else if d == 2 {
        "2"
    } else if d == 3 {
        "3"
    } else if d == 4 {
        "4"
    } else if d == 5 {
        "5"
    } else if d == 6 {
        "6"
    } else if d == 7 {
        "7"
    } else if d == 8 {
        "8"
    } else {
        "9"
    }
}

/// Appends the decimal notation of `n` to `text`.
pub fn push_decimal(text: &mut String, n: u64)
    ensures
        final(text)@ == old(text)@ + decimal(n as nat),
    decreases n,
{
    if n >= 10 {
        push_decimal(text, n / 10);
    }
    text.append(digit_str(n % 10));
    proof {
        if n >= 10 {
            assert(final(text)@ =~= old(text)@ + decimal(n as nat));
        } else {
            assert(final(text)@ =~= old(text)@ + decimal(n as nat));
        }
    }
}

/// A frame identifier: a caller-chosen prefix followed by a sequence number.
#[derive(Clone, Debug)]
pub struct Identifier {
    pub prefix: String,
    pub sequence: u64,
}

impl Identifier {
    pub open spec fn text(&self) -> Seq<char> {
        identifier_text(self.prefix@, self.sequence as nat)
    }

    pub fn new(prefix: String, sequence: u64) -> (r: Identifier)
        ensures
            r.prefix@ == prefix@,
            r.sequence == sequence,
    {
        Identifier { prefix, sequence }
    }

    /// The canonical text: the prefix followed by the decimal sequence number.
    pub fn canonical_text(&self) -> (r: String)
        ensures
            r@ == self.text(),
    {
        let mut text = String::new();
        text.append(self.prefix.as_str());
        push_decimal(&mut text, self.sequence);
        proof {
            assert(text@ =~= self.text());
        }
        text
    }
}

/// Identifiers are equal exactly when their canonical texts are.
impl PartialEq for Identifier {
    fn eq(&self, other: &Identifier) -> (r: bool) {
        let a = self.canonical_text();
        let b = other.canonical_text();
        a == b
    }
}

impl vstd::std_specs::cmp::PartialEqSpecImpl for Identifier {
    open spec fn obeys_eq_spec() -> bool {
        true
    }

    open spec fn eq_spec(&self, other: &Identifier) -> bool {
        self.text() == other.text()
    }
}

impl Eq for Identifier {

}

/// The parts of a prepared video, each stamped with its own marker prefix: a
/// lead-in, the frames of the source video, and a lead-out.
#[derive(Clone, Copy, PartialEq, Eq, Debug, Structural)]
pub enum Segment {
    Start,
    Frames,
    End,
}

impl Segment {
    pub open spec fn spec_marker(self) -> Seq<char> {
        match self {
            Segment::Start => "s:"@,
            Segment::Frames => "f:"@,
            Segment::End => "e:"@,
        }
    }

    /// The prefix that the identifiers of this segment carry.
    pub fn marker(&self) -> (r: String)
        ensures
            r@ == self.spec_marker(),
    {
        match self {
            Segment::Start => "s:".to_owned(),
            Segment::Frames => "f:".to_owned(),
            Segment::End => "e:".to_owned(),
        }
    }
}

} // verus!
