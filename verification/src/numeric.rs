//! Numeric payloads and the answer table.
//!
//! A numeric literal is carried as an opaque 64-bit payload. The kernel
//! only ever compares payloads against the distinguished constants below;
//! every arithmetic combination of payloads is delegated to the caller:
//! a pass that needs one reports a `NumOp` request, the caller computes
//! the answer, records it in the `NumTable`, and calls the pass again.

use vstd::prelude::*;

verus! {

/// Payload of the literal zero.
pub const ZERO_BITS: u64 = 0x0000_0000_0000_0000;

/// Payload of the literal negative zero; it compares equal to zero.
pub const NEG_ZERO_BITS: u64 = 0x8000_0000_0000_0000;

/// Payload of the literal one.
pub const ONE_BITS: u64 = 0x3FF0_0000_0000_0000;

/// Payload of the literal two.
pub const TWO_BITS: u64 = 0x4000_0000_0000_0000;

/// Payload of the literal minus one.
pub const NEG_ONE_BITS: u64 = 0xBFF0_0000_0000_0000;

/// Payload of the not-a-number value returned for unbound variables.
pub const NAN_BITS: u64 = 0x7FF8_0000_0000_0000;

/// Payload of positive infinity, the identity of a variadic minimum.
pub const INF_BITS: u64 = 0x7FF0_0000_0000_0000;

/// Payload of negative infinity, the identity of a variadic maximum.
pub const NEG_INF_BITS: u64 = 0xFFF0_0000_0000_0000;

/// Whether a payload is the literal zero (of either sign).
pub open spec fn is_zero(bits: u64) -> bool {
    bits == ZERO_BITS || bits == NEG_ZERO_BITS
}

/// Whether a payload is the literal one.
pub open spec fn is_one(bits: u64) -> bool {
    bits == ONE_BITS
}

/// Exec mirror of [`is_zero`].
#[verifier::when_used_as_spec(is_zero)]
pub fn bits_are_zero(bits: u64) -> (r: bool)
    ensures
        r == is_zero(bits),
{
    bits == ZERO_BITS || bits == NEG_ZERO_BITS
}

/// Exec mirror of [`is_one`].
#[verifier::when_used_as_spec(is_one)]
pub fn bits_are_one(bits: u64) -> (r: bool)
    ensures
        r == is_one(bits),
{
    bits == ONE_BITS
}

/// The binary arithmetic operations a caller may be asked for.
#[derive(Debug, Clone, Copy, PartialEq, Eq, Structural)]
pub enum BinKind {
    Add,
    Sub,
    Mul,
    Div,
    Pow,
    Max,
    Min,
}

/// The unary functions a caller may be asked for.
#[derive(Debug, Clone, Copy, PartialEq, Eq, Structural)]
pub enum FuncKind {
    Sin,
    Cos,
    Tan,
    Ln,
    Log10,
    Sqrt,
}

/// One arithmetic request: combine two payloads, or apply a function
/// to one payload.
#[derive(Debug, Clone, Copy, PartialEq, Eq, Structural)]
pub enum NumOp {
    Bin(BinKind, u64, u64),
    Apply(FuncKind, u64),
}

/// The model of an answer table: recorded arithmetic answers and
/// recorded decimal renderings.
pub ghost struct NumTableV {
    pub ops: Seq<(NumOp, u64)>,
    pub texts: Seq<(u64, Seq<char>)>,
}

/// First recorded answer for an arithmetic request.
pub open spec fn lookup_op(s: Seq<(NumOp, u64)>, op: NumOp) -> Option<u64>
    decreases s.len(),
{
    if s.len() == 0 {
        None
    } else if s[0].0 == op {
        Some(s[0].1)
    } else {
        lookup_op(s.drop_first(), op)
    }
}

/// First recorded rendering for a payload.
pub open spec fn lookup_text(s: Seq<(u64, Seq<char>)>, bits: u64) -> Option<Seq<char>>
    decreases s.len(),
{
    if s.len() == 0 {
        None
    } else if s[0].0 == bits {
        Some(s[0].1)
    } else {
        lookup_text(s.drop_first(), bits)
    }
}

/// The answer recorded for `op`, if any.
pub open spec fn op_answer(t: NumTableV, op: NumOp) -> Option<u64> {
    lookup_op(t.ops, op)
}

/// The rendering recorded for `bits`, if any.
pub open spec fn text_answer(t: NumTableV, bits: u64) -> Option<Seq<char>> {
    lookup_text(t.texts, bits)
}

/// Restricted to index `i` onward; used to relate the lookup loops to
/// the recursive definitions.
pub open spec fn lookup_op_from(s: Seq<(NumOp, u64)>, op: NumOp, i: int) -> Option<u64>
    decreases s.len() - i,
{
    if i < 0 || i >= s.len() {
        None
    } else if s[i].0 == op {
        Some(s[i].1)
    } else {
        lookup_op_from(s, op, i + 1)
    }
}

pub open spec fn lookup_text_from(s: Seq<(u64, Seq<char>)>, bits: u64, i: int) -> Option<Seq<char>>
    decreases s.len() - i,
{
    if i < 0 || i >= s.len() {
        None
    } else if s[i].0 == bits {
        Some(s[i].1)
    } else {
        lookup_text_from(s, bits, i + 1)
    }
}

pub proof fn lemma_lookup_op_from(s: Seq<(NumOp, u64)>, op: NumOp, i: int)
    requires
        0 <= i <= s.len(),
    ensures
        lookup_op_from(s, op, i) == lookup_op(s.skip(i), op),
    decreases s.len() - i,
{
    if i < s.len() {
        assert(s.skip(i)[0] == s[i]);
        lemma_lookup_op_from(s, op, i + 1);
        assert(s.skip(i).drop_first() =~= s.skip(i + 1));
    }
}

pub proof fn lemma_lookup_text_from(s: Seq<(u64, Seq<char>)>, bits: u64, i: int)
    requires
        0 <= i <= s.len(),
    ensures
        lookup_text_from(s, bits, i) == lookup_text(s.skip(i), bits),
    decreases s.len() - i,
{
    if i < s.len() {
        assert(s.skip(i)[0] == s[i]);
        lemma_lookup_text_from(s, bits, i + 1);
        assert(s.skip(i).drop_first() =~= s.skip(i + 1));
    }
}

/// The answer table a caller fills in as a pass asks for arithmetic.
pub struct NumTable {
    ops: Vec<(NumOp, u64)>,
    texts: Vec<(u64, String)>,
}

impl View for NumTable {
    type V = NumTableV;

    closed spec fn view(&self) -> NumTableV {
        NumTableV {
            ops: self.ops@,
            texts: self.texts@.map_values(|p: (u64, String)| (p.0, p.1@)),
        }
    }
}

impl NumTable {
    /// An empty table: no answers recorded yet.
    pub fn new() -> (t: NumTable)
        ensures
            t@.ops == Seq::<(NumOp, u64)>::empty(),
            t@.texts == Seq::<(u64, Seq<char>)>::empty(),
    {
        let t = NumTable { ops: Vec::new(), texts: Vec::new() };
        proof {
            assert(t@.texts =~= Seq::<(u64, Seq<char>)>::empty());
        }
        t
    }

    /// The recorded answer for an arithmetic request, if any.
    #[verifier::loop_isolation(false)]
    pub fn op_lookup(&self, op: NumOp) -> (r: Option<u64>)
        ensures
            r == op_answer(self@, op),
    {
        let mut i: usize = 0;
        while i < self.ops.len()
            invariant
                i <= self.ops.len(),
                lookup_op_from(self@.ops, op, 0) == lookup_op_from(self@.ops, op, i as int),
            decreases self.ops.len() - i,
        {
            let (k, v) = self.ops[i];
            if k == op {
                proof {
                    lemma_lookup_op_from(self@.ops, op, 0);
                    assert(self@.ops.skip(0) =~= self@.ops);
                }
                return Some(v);
            }
            i = i + 1;
        }
        proof {
            lemma_lookup_op_from(self@.ops, op, 0);
            assert(self@.ops.skip(0) =~= self@.ops);
        }
        None
    }

    /// The recorded rendering for a payload, if any.
    #[verifier::loop_isolation(false)]
    pub fn text_lookup(&self, bits: u64) -> (r: Option<String>)
        ensures
            match r {
                Some(s) => text_answer(self@, bits) == Some(s@),
                None => text_answer(self@, bits) is None,
            },
    {
        let mut i: usize = 0;
        while i < self.texts.len()
            invariant
                i <= self.texts.len(),
                lookup_text_from(self@.texts, bits, 0) == lookup_text_from(self@.texts, bits, i as int),
            decreases self.texts.len() - i,
        {
            if self.texts[i].0 == bits {
                let s = self.texts[i].1.clone();
                proof {
                    lemma_lookup_text_from(self@.texts, bits, 0);
                    assert(self@.texts.skip(0) =~= self@.texts);
                }
                return Some(s);
            }
            i = i + 1;
        }
        proof {
            lemma_lookup_text_from(self@.texts, bits, 0);
            assert(self@.texts.skip(0) =~= self@.texts);
        }
        None
    }

    /// Record the caller's answer for an arithmetic request: earlier
    /// answers keep their force, and the request gains one if it had
    /// none.
    pub fn record_op(&mut self, op: NumOp, answer: u64)
        ensures
            final(self)@.ops == old(self)@.ops.push((op, answer)),
            final(self)@.texts == old(self)@.texts,
            forall|q: NumOp|
                #[trigger] op_answer(final(self)@, q) == if op_answer(old(self)@, q) is Some {
                    op_answer(old(self)@, q)
                } else if q == op {
                    Some(answer)
                } else {
                    None
                },
    {
        let ghost before = self@.ops;
        self.ops.push((op, answer));
        proof {
            assert forall|q: NumOp|
                #[trigger] op_answer(self@, q) == if op_answer(NumTableV { ops: before, texts: self@.texts }, q) is Some {
                    op_answer(NumTableV { ops: before, texts: self@.texts }, q)
                } else if q == op {
                    Some(answer)
                } else {
                    None
                } by {
                lemma_lookup_op_push(before, op, answer, q);
            }
        }
    }

    /// Record the caller's rendering of a payload.
    pub fn record_text(&mut self, bits: u64, text: String)
        ensures
            final(self)@.texts == old(self)@.texts.push((bits, text@)),
            final(self)@.ops == old(self)@.ops,
    {
        let ghost before = self@.texts;
        self.texts.push((bits, text));
        proof {
            assert(self@.texts =~= before.push((bits, text@)));
        }
    }
}

/// Appending a new answer leaves every previously answered request as it
/// was and answers the new request if it was unanswered.
pub proof fn lemma_lookup_op_push(s: Seq<(NumOp, u64)>, op: NumOp, answer: u64, q: NumOp)
    ensures
        lookup_op(s.push((op, answer)), q) == if lookup_op(s, q) is Some {
            lookup_op(s, q)
        } else if q == op {
            Some(answer)
        } else {
            None
        },
    decreases s.len(),
{
    if s.len() == 0 {
        assert(s.push((op, answer)).drop_first() =~= Seq::<(NumOp, u64)>::empty());
    } else {
        assert(s.push((op, answer)).drop_first() =~= s.drop_first().push((op, answer)));
        lemma_lookup_op_push(s.drop_first(), op, answer, q);
    }
}

} // verus!
