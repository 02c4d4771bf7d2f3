//! An ordered chain of bitwise and arithmetic steps applied to an `i16` value.
//!
//! An [`Expression`] owns a sequence of [`Term`]s. Each term records the value
//! it received, the [`Operation`] applied to it, and the value it produced.
//! Every mutation of the chain re-propagates values downstream, so that each
//! term's input always equals the previous term's result when the call returns.

use vstd::prelude::*;

pub mod display;
pub mod rhs;

verus! {

/// One step kind of a chain. Binary variants carry their right-hand operand,
/// already resolved to a concrete `i16` value (see the `rhs` module).
#[derive(Clone, Copy, PartialEq, Eq, Structural, Debug)]
pub enum Operation {
    /// Passes its input through unchanged; used for the first term of a chain.
    Identity,
    /// Bitwise complement of the input.
    BitwiseNot,
    /// Input AND operand.
    BitwiseAnd(i16),
    /// Input OR operand.
    BitwiseOr(i16),
    /// Input XOR operand.
    BitwiseXor(i16),
    /// Input shifted left by the operand's low four bits.
    ShiftLeft(i16),
    /// Input shifted right (arithmetic, sign-extending) by the operand's low four bits.
    ShiftRight(i16),
    /// 1 if the input equals zero, else 0.
    LogicalNot,
    /// 1 if the input is nonzero, else 0.
    LogicalDoubleNot,
    /// Input plus operand, wrapping on overflow.
    Add(i16),
}

/// A single step: the value it received, the operation applied, and the value
/// it produced. `result` is always derived from the other two fields; it is
/// established by the constructors and maintained by the owning [`Expression`].
#[derive(Clone, Copy, PartialEq, Eq, Structural, Debug)]
pub struct Term {
    pub initial_value: i16,
    pub operation: Operation,
    pub result: i16,
}

/// An ordered left-to-right evaluation chain of [`Term`]s.
#[derive(Clone, Debug)]
pub struct Expression {
    pub terms: Vec<Term>,
}

/// The number of bit positions a shift operand moves its input: the operand's
/// bit pattern masked to the low four bits. This keeps every shift amount
/// below the 16-bit width, the documented policy for out-of-range amounts.
pub open spec fn shift_amount(v: i16) -> u16 {
    (v as u16) & 0xf
}

/// `a + b` on `i16` with wrapping (two's complement) overflow behavior.
pub open spec fn wrap_add(a: i16, b: i16) -> i16 {
    ((((a as u16) as u32 + (b as u16) as u32) % 0x10000) as u16) as i16
}

/// What each operation produces from a given input value. Bit-level variants
/// act on the input's 16-bit two's complement pattern.
pub open spec fn apply_op(op: Operation, input: i16) -> i16 {
    match op {
        Operation::Identity => input,
        Operation::BitwiseNot => (!(input as u16)) as i16,
        Operation::BitwiseAnd(v) => ((input as u16) & (v as u16)) as i16,
        Operation::BitwiseOr(v) => ((input as u16) | (v as u16)) as i16,
        Operation::BitwiseXor(v) => ((input as u16) ^ (v as u16)) as i16,
        Operation::ShiftLeft(v) => ((input as u16) << shift_amount(v)) as i16,
        Operation::ShiftRight(v) => (if input >= 0 {
            ((input as u16) >> shift_amount(v)) as i16
        } else {
            (!((!(input as u16)) >> shift_amount(v))) as i16
        }),
        Operation::LogicalNot => if input == 0 { 1 } else { 0 },
        Operation::LogicalDoubleNot => if input != 0 { 1 } else { 0 },
        Operation::Add(v) => wrap_add(input, v),
    }
}

/// The consistent term built from an input value and an operation.
pub open spec fn term_for(input: i16, op: Operation) -> Term {
    Term { initial_value: input, operation: op, result: apply_op(op, input) }
}

/// The fully propagated chain that starts from `input` and applies `ops` in
/// order: each term feeds its result to the next term's input.
pub open spec fn chain(input: i16, ops: Seq<Operation>) -> Seq<Term>
    decreases ops.len(),
{
    if ops.len() == 0 {
        Seq::empty()
    } else {
        seq![term_for(input, ops[0])] + chain(apply_op(ops[0], input), ops.drop_first())
    }
}

/// Well-formedness of a term sequence: every term's result is derived from its
/// input and operation, and every term after the first receives the previous
/// term's result. This is the propagation invariant.
pub open spec fn wf_terms(terms: Seq<Term>) -> bool {
    &&& forall|i: int|
        0 <= i < terms.len() ==> #[trigger] terms[i].result == apply_op(
            terms[i].operation,
            terms[i].initial_value,
        )
    &&& forall|i: int| 1 <= i < terms.len() ==> #[trigger] terms[i].initial_value == terms[i - 1].result
}

/// A propagated chain has as many terms as operations; its first term receives
/// `input`; each term carries its operation, derives its result, and feeds the
/// next term.
pub proof fn lemma_chain_index(input: i16, ops: Seq<Operation>, i: int)
    requires
        0 <= i < ops.len(),
    ensures
        chain(input, ops).len() == ops.len(),
        chain(input, ops)[i].operation == ops[i],
        chain(input, ops)[i].result == apply_op(ops[i], chain(input, ops)[i].initial_value),
        chain(input, ops)[0].initial_value == input,
        i > 0 ==> chain(input, ops)[i].initial_value == chain(input, ops)[i - 1].result,
    decreases ops.len(),
{
    lemma_chain_len(input, ops);
    if i > 0 {
        let next = apply_op(ops[0], input);
        let rest = ops.drop_first();
        lemma_chain_index(next, rest, i - 1);
        assert(chain(input, ops)[i] == chain(next, rest)[i - 1]);
        if i - 1 > 0 {
            assert(chain(input, ops)[i - 1] == chain(next, rest)[i - 2]);
        } else {
            lemma_chain_index(next, rest, 0);
            assert(chain(input, ops)[0] == term_for(input, ops[0]));
        }
    }
}

/// A propagated chain has exactly one term per operation.
pub proof fn lemma_chain_len(input: i16, ops: Seq<Operation>)
    ensures
        chain(input, ops).len() == ops.len(),
    decreases ops.len(),
{
    if ops.len() > 0 {
        lemma_chain_len(apply_op(ops[0], input), ops.drop_first());
    }
}

/// Every propagated chain satisfies the propagation invariant.
pub proof fn lemma_chain_wf(input: i16, ops: Seq<Operation>)
    ensures
        wf_terms(chain(input, ops)),
{
    lemma_chain_len(input, ops);
    let c = chain(input, ops);
    assert forall|i: int| 0 <= i < c.len() implies #[trigger] c[i].result == apply_op(
        c[i].operation,
        c[i].initial_value,
    ) by {
        lemma_chain_index(input, ops, i);
    }
    assert forall|i: int| 1 <= i < c.len() implies #[trigger] c[i].initial_value == c[i - 1].result by {
        lemma_chain_index(input, ops, i);
    }
}

/// Appending is deterministic: two structurally identical chains, each
/// extended through `add_operation` with the same operation, gain equal new
/// terms and remain structurally identical.
pub proof fn lemma_append_deterministic(a: Expression, b: Expression, operation: Operation)
    requires
        a.terms@ == b.terms@,
    ensures
        term_for(a.final_spec(), operation) == term_for(b.final_spec(), operation),
        a.terms@.push(term_for(a.final_spec(), operation)) == b.terms@.push(
            term_for(b.final_spec(), operation),
        ),
{
}

impl Term {
    /// Builds a term from an input value and an operation; the result is
    /// computed immediately, so a term is never observed inconsistent.
    pub fn new(initial_value: i16, operation: Operation) -> (t: Term)
        ensures
            t == term_for(initial_value, operation),
    {
        let mut term = Term { initial_value, operation, result: initial_value };
        term.operate();
        term
    }

    /// Builds the term that follows `previous_term`: its input is the previous
    /// term's result.
    pub fn new_from_term(previous_term: &Term, operation: Operation) -> (t: Term)
        ensures
            t == term_for(previous_term.result, operation),
    {
        let mut term = Term {
            initial_value: previous_term.result,
            operation,
            result: previous_term.result,
        };
        term.operate();
        term
    }

    /// Recomputes `result` from `initial_value` and `operation`.
    fn operate(&mut self)
        ensures
            *final(self) == term_for(old(self).initial_value, old(self).operation),
    {
        self.result = match self.operation {
            Operation::Identity => self.initial_value,
            Operation::BitwiseNot => {
                #[verifier::truncate] ((!(self.initial_value as u16)) as i16)
            },
            Operation::BitwiseAnd(value) => {
                #[verifier::truncate] (((self.initial_value as u16) & (value as u16)) as i16)
            },
            Operation::BitwiseOr(value) => {
                #[verifier::truncate] (((self.initial_value as u16) | (value as u16)) as i16)
            },
            Operation::BitwiseXor(value) => {
                #[verifier::truncate] (((self.initial_value as u16) ^ (value as u16)) as i16)
            },
            Operation::ShiftLeft(value) => {
                let amt: u16 = (value as u16) & 0xf;
                assert(amt < 16) by (bit_vector)
                    requires
                        amt == (value as u16) & 0xf,
                ;
                #[verifier::truncate] (((self.initial_value as u16) << amt) as i16)
            },
            Operation::ShiftRight(value) => {
                let amt: u16 = (value as u16) & 0xf;
                assert(amt < 16) by (bit_vector)
                    requires
                        amt == (value as u16) & 0xf,
                ;
                if self.initial_value >= 0 {
                    #[verifier::truncate] (((self.initial_value as u16) >> amt) as i16)
                } else {
                    #[verifier::truncate] ((!((!(self.initial_value as u16)) >> amt)) as i16)
                }
            },
            Operation::LogicalNot => if self.initial_value == 0 {
                1
            } else {
                0
            },
            Operation::LogicalDoubleNot => if self.initial_value != 0 {
                1
            } else {
                0
            },
            Operation::Add(value) => {
                let sum: u32 = (self.initial_value as u16 as u32) + (value as u16 as u32);
                #[verifier::truncate] (((sum % 0x10000) as u16) as i16)
            },
        };
    }
}

impl Expression {
    /// The sequence of operations carried by the chain's terms, in order.
    pub open spec fn ops(self) -> Seq<Operation> {
        self.terms@.map_values(|t: Term| t.operation)
    }

    /// The chain satisfies the propagation invariant (see [`wf_terms`]).
    pub open spec fn wf(self) -> bool {
        wf_terms(self.terms@)
    }

    /// The chain's current final result: the last term's result, or zero for
    /// an empty chain.
    pub open spec fn final_spec(self) -> i16 {
        if self.terms@.len() == 0 {
            0
        } else {
            self.terms@.last().result
        }
    }

    /// Creates an empty chain.
    pub fn new() -> (e: Expression)
        ensures
            e.terms@ == Seq::<Term>::empty(),
            e.wf(),
    {
        Expression { terms: Vec::new() }
    }

    /// True exactly when the chain holds no terms.
    pub fn is_empty(&self) -> (r: bool)
        ensures
            r == (self.terms@.len() == 0),
    {
        self.terms.len() == 0
    }

    /// The chain's current final result by value; zero for an empty chain.
    pub fn final_value(&self) -> (r: i16)
        ensures
            r == self.final_spec(),
            self.terms@.len() == 0 ==> r == 0,
    {
        if self.terms.len() == 0 {
            0
        } else {
            self.terms[self.terms.len() - 1].result
        }
    }

    /// Sets the input of the first term, creating a fresh identity term if the
    /// chain is empty, and re-propagates the whole chain.
    pub fn set_initial_value(&mut self, initial_value: i16)
        ensures
            old(self).terms@.len() == 0 ==> final(self).terms@ == chain(
                initial_value,
                seq![Operation::Identity],
            ),
            old(self).terms@.len() > 0 ==> final(self).terms@ == chain(
                initial_value,
                old(self).ops(),
            ),
            final(self).wf(),
    {
        if self.terms.len() == 0 {
            self.terms.push(Term::new(initial_value, Operation::Identity));
            proof {
                let ops1 = seq![Operation::Identity];
                lemma_chain_len(initial_value, ops1);
                lemma_chain_index(initial_value, ops1, 0);
                assert(chain(initial_value, ops1)[0] == term_for(
                    initial_value,
                    Operation::Identity,
                ));
                assert(self.terms@ =~= chain(initial_value, ops1));
                lemma_chain_wf(initial_value, ops1);
            }
        } else {
            let mut first = self.terms[0];
            first.initial_value = initial_value;
            self.terms[0] = first;
            proof {
                assert(self.ops() =~= old(self).ops());
            }
            self.propogate();
            proof {
                lemma_chain_wf(initial_value, old(self).ops());
            }
        }
    }

    /// Replaces the operation at `index` and re-propagates from the start.
    /// An out-of-range index leaves the chain completely unchanged.
    pub fn change_operation(&mut self, index: usize, operation: Operation)
        ensures
            index < old(self).terms@.len() ==> final(self).terms@ == chain(
                old(self).terms@[0].initial_value,
                old(self).ops().update(index as int, operation),
            ) && final(self).wf(),
            index >= old(self).terms@.len() ==> *final(self) == *old(self),
    {
        if index < self.terms.len() {
            let mut term = self.terms[index];
            term.operation = operation;
            self.terms[index] = term;
            proof {
                assert(self.ops() =~= old(self).ops().update(index as int, operation));
                assert(self.terms@[0].initial_value == old(self).terms@[0].initial_value);
            }
            self.propogate();
            proof {
                lemma_chain_wf(
                    old(self).terms@[0].initial_value,
                    old(self).ops().update(index as int, operation),
                );
            }
        }
    }

    /// Appends one new term whose input is the chain's current final result
    /// (zero for an empty chain) and whose operation is `operation`. Always
    /// grows the chain by exactly one term and preserves the propagation
    /// invariant.
    pub fn add_operation(&mut self, operation: Operation)
        ensures
            final(self).terms@ == old(self).terms@.push(
                term_for(old(self).final_spec(), operation),
            ),
            final(self).final_spec() == apply_op(operation, old(self).final_spec()),
            old(self).wf() ==> final(self).wf(),
    {
        if self.terms.len() == 0 {
            self.terms.push(Term::new(0, operation));
        } else {
            let last = self.terms[self.terms.len() - 1];
            self.terms.push(Term::new_from_term(&last, operation));
        }
    }

    /// Re-propagates the whole chain: recomputes the first term's result, then
    /// walks forward, feeding each term's result to the next term's input.
    fn propogate(&mut self)
        ensures
            old(self).terms@.len() == 0 ==> final(self).terms@ == old(self).terms@,
            old(self).terms@.len() > 0 ==> final(self).terms@ == chain(
                old(self).terms@[0].initial_value,
                old(self).ops(),
            ),
    {
        if self.terms.len() == 0 {
            return;
        }
        let ghost first_input = self.terms@[0].initial_value;
        let ghost ops = self.ops();
        proof {
            lemma_chain_len(first_input, ops);
        }
        let mut t0 = self.terms[0];
        t0.operate();
        self.terms[0] = t0;
        proof {
            lemma_chain_index(first_input, ops, 0);
            assert(self.terms@[0] == chain(first_input, ops)[0]);
        }
        let n = self.terms.len();
        let mut i: usize = 1;
        while i < n
            invariant
                1 <= i <= n,
                n == self.terms@.len(),
                n == ops.len(),
                ops == old(self).ops(),
                first_input == old(self).terms@[0].initial_value,
                forall|k: int| 0 <= k < n ==> #[trigger] self.terms@[k].operation == ops[k],
                forall|k: int| 0 <= k < i ==> #[trigger] self.terms@[k] == chain(
                    first_input,
                    ops,
                )[k],
            decreases n - i,
        {
            let prev_result = self.terms[i - 1].result;
            let mut term = self.terms[i];
            term.initial_value = prev_result;
            term.operate();
            self.terms[i] = term;
            proof {
                lemma_chain_index(first_input, ops, i as int);
                assert(chain(first_input, ops)[i as int] == term_for(
                    chain(first_input, ops)[i - 1].result,
                    ops[i as int],
                ));
                assert(self.terms@[i as int] == chain(first_input, ops)[i as int]);
            }
            i = i + 1;
        }
        proof {
            assert(self.terms@ =~= chain(first_input, ops));
        }
    }
}

} // verus!
