//! String rendering of chains: positional numerals in decimal, hexadecimal
//! and binary, the fixed-width value box shared by trace lines, the algebraic
//! form, and the multi-line trace.
//!
//! Column widths are derived from the 16-bit width of the chain's value type
//! (two bytes `B` give a decimal column of `3B + 2`, a hexadecimal column of
//! `2B + 2` and a binary column of `8B + 2`; a full trace row spans `13B + 14`
//! columns).

use vstd::prelude::*;
use crate::operations::Expression;
use crate::operations::Operation;
use crate::operations::Term;
use vstd::string::StrSliceExecFns;
use vstd::string::StringExecFns;
use vstd::arithmetic::div_mod::lemma_div_decreases;

verus! {

/// The numeral character for one digit value below sixteen.
pub open spec fn digit_char(d: nat) -> char {
    if d == 0 {
        '0'
    } else if d == 1 {
        '1'
    } else if d == 2 {
        '2'
    } else if d == 3 {
        '3'
    } else if d == 4 {
        '4'
    } else if d == 5 {
        '5'
    } else if d == 6 {
        '6'
    } else if d == 7 {
        '7'
    } else if d == 8 {
        '8'
    } else if d == 9 {
        '9'
    } else if d == 10 {
        'a'
    } else if d == 11 {
        'b'
    } else if d == 12 {
        'c'
    } else if d == 13 {
        'd'
    } else if d == 14 {
        'e'
    } else if d == 15 {
        'f'
    } else {
        '?'
    }
}

/// The positional numeral of `n` in the given radix, most significant digit
/// first, without leading zeros (a lone zero digit for `n == 0`).
pub open spec fn digits(n: nat, radix: nat) -> Seq<char>
    decreases n,
    via digits_decreases
{
    if radix < 2 || n < radix {
        seq![digit_char(n)]
    } else {
        digits(n / radix, radix) + seq![digit_char(n % radix)]
    }
}

#[via_fn]
proof fn digits_decreases(n: nat, radix: nat) {
    if !(radix < 2 || n < radix) {
        lemma_div_decreases(n as int, radix as int);
    }
}

/// A run of `n` space characters.
pub open spec fn spaces(n: nat) -> Seq<char>
    decreases n,
{
    if n == 0 {
        Seq::empty()
    } else {
        spaces((n - 1) as nat) + seq![' ']
    }
}

/// `s` right-aligned in a field of `w` columns: space-padded on the left, or
/// unchanged if it is already at least that wide.
pub open spec fn pad_left(s: Seq<char>, w: nat) -> Seq<char> {
    if s.len() >= w {
        s
    } else {
        spaces((w - s.len()) as nat) + s
    }
}

/// The signed decimal numeral of an `i16` value.
pub open spec fn dec_str(v: i16) -> Seq<char> {
    if v >= 0 {
        digits(v as nat, 10)
    } else {
        seq!['-'] + digits((-(v as int)) as nat, 10)
    }
}

/// The hexadecimal numeral of an `i16` value's 16-bit two's complement
/// pattern, with a `0x` prefix.
pub open spec fn hex_str(v: i16) -> Seq<char> {
    "0x"@ + digits((v as u16) as nat, 16)
}

/// The binary numeral of an `i16` value's 16-bit two's complement pattern,
/// with a `0b` prefix.
pub open spec fn bin_str(v: i16) -> Seq<char> {
    "0b"@ + digits((v as u16) as nat, 2)
}

/// One value rendered in the aligned triple form
/// `[ decimal | 0xHEX | 0bBINARY ]` with the column widths of a 16-bit type.
pub open spec fn value_box(v: i16) -> Seq<char> {
    "["@ + pad_left(dec_str(v), 8) + " | "@ + pad_left(hex_str(v), 6) + " | "@ + pad_left(
        bin_str(v),
        18,
    ) + "]"@
}

/// The one-character string for a digit value below sixteen.
fn digit_str(d: u64) -> (r: &'static str)
    requires
        d < 16,
    ensures
        r@ == seq![digit_char(d as nat)],
{
    if d == 0 {
        proof {
            reveal_strlit("0");
            assert("0"@ =~= seq!['0']);
        }
        "0"
    } else if d == 1 {
        proof {
            reveal_strlit("1");
            assert("1"@ =~= seq!['1']);
        }
        "1"
    } else if d == 2 {
        proof {
            reveal_strlit("2");
            assert("2"@ =~= seq!['2']);
        }
        "2"
    } else if d == 3 {
        proof {
            reveal_strlit("3");
            assert("3"@ =~= seq!['3']);
        }
        "3"
    } else if d == 4 {
        proof {
            reveal_strlit("4");
            assert("4"@ =~= seq!['4']);
        }
        "4"
    } else if d == 5 {
        proof {
            reveal_strlit("5");
            assert("5"@ =~= seq!['5']);
        }
        "5"
    } else if d == 6 {
        proof {
            reveal_strlit("6");
            assert("6"@ =~= seq!['6']);
        }
        "6"
    } else if d == 7 {
        proof {
            reveal_strlit("7");
            assert("7"@ =~= seq!['7']);
        }
        "7"
    } else if d == 8 {
        proof {
            reveal_strlit("8");
            assert("8"@ =~= seq!['8']);
        }
        "8"
    } else if d == 9 {
        proof {
            reveal_strlit("9");
            assert("9"@ =~= seq!['9']);
        }
        "9"
    } else if d == 10 {
        proof {
            reveal_strlit("a");
            assert("a"@ =~= seq!['a']);
        }
        "a"
    } else if d == 11 {
        proof {
            reveal_strlit("b");
            assert("b"@ =~= seq!['b']);
        }
        "b"
    } else if d == 12 {
        proof {
            reveal_strlit("c");
            assert("c"@ =~= seq!['c']);
        }
        "c"
    } else if d == 13 {
        proof {
            reveal_strlit("d");
            assert("d"@ =~= seq!['d']);
        }
        "d"
    } else if d == 14 {
        proof {
            reveal_strlit("e");
            assert("e"@ =~= seq!['e']);
        }
        "e"
    } else {
        proof {
            reveal_strlit("f");
            assert("f"@ =~= seq!['f']);
        }
        "f"
    }
}

/// Appends the positional numeral of `n` in the given radix to `s`.
fn push_digits(s: &mut String, n: u64, radix: u64)
    requires
        2 <= radix <= 16,
    ensures
        final(s)@ == old(s)@ + digits(n as nat, radix as nat),
    decreases n,
{
    if n < radix {
        s.append(digit_str(n));
    } else {
        proof {
            lemma_div_decreases(n as int, radix as int);
        }
        let q = n / radix;
        let r = n % radix;
        push_digits(s, q, radix);
        s.append(digit_str(r));
        proof {
            assert(old(s)@ + digits(n as nat, radix as nat) =~= (old(s)@ + digits(
                q as nat,
                radix as nat,
            )) + seq![digit_char(r as nat)]);
        }
    }
}

/// The decimal numeral of an unsigned value as a fresh string.
fn dec_u64(n: u64) -> (r: String)
    ensures
        r@ == digits(n as nat, 10),
{
    let mut s = String::new();
    push_digits(&mut s, n, 10);
    proof {
        assert(s@ =~= digits(n as nat, 10));
    }
    s
}

/// The signed decimal numeral of an `i16` value as a fresh string.
pub fn dec_i16(v: i16) -> (r: String)
    ensures
        r@ == dec_str(v),
{
    let mut s = String::new();
    if v >= 0 {
        push_digits(&mut s, v as u64, 10);
        proof {
            assert(s@ =~= dec_str(v));
        }
    } else {
        s.append("-");
        let mag: u64 = (-(v as i32)) as u64;
        push_digits(&mut s, mag, 10);
        proof {
            reveal_strlit("-");
            assert("-"@ =~= seq!['-']);
            assert(mag as nat == (-(v as int)) as nat);
            assert(s@ =~= dec_str(v));
        }
    }
    s
}

/// The prefixed hexadecimal numeral of an `i16` value's bit pattern.
pub fn hex_i16(v: i16) -> (r: String)
    ensures
        r@ == hex_str(v),
{
    let mut s = String::new();
    s.append("0x");
    let pattern: u64 = #[verifier::truncate] ((v as u16) as u64);
    push_digits(&mut s, pattern, 16);
    proof {
        assert(s@ =~= hex_str(v));
    }
    s
}

/// The prefixed binary numeral of an `i16` value's bit pattern.
pub fn bin_i16(v: i16) -> (r: String)
    ensures
        r@ == bin_str(v),
{
    let mut s = String::new();
    s.append("0b");
    let pattern: u64 = #[verifier::truncate] ((v as u16) as u64);
    push_digits(&mut s, pattern, 2);
    proof {
        assert(s@ =~= bin_str(v));
    }
    s
}

/// `s` right-aligned in a field of `width` columns.
fn pad_left_string(s: &str, width: usize) -> (r: String)
    ensures
        r@ == pad_left(s@, width as nat),
{
    let n = s.unicode_len();
    let mut r = String::new();
    let mut i: usize = n;
    while i < width
        invariant
            n == s@.len(),
            n <= i,
            r@ == spaces((i - n) as nat),
            i <= width || i == n,
        decreases width - i,
    {
        r.append(" ");
        proof {
            reveal_strlit(" ");
            assert(" "@ =~= seq![' ']);
            assert(spaces((i + 1 - n) as nat) == spaces((i - n) as nat) + seq![' ']);
        }
        i = i + 1;
    }
    r.append(s);
    proof {
        if s@.len() >= width as nat {
            assert(r@ =~= s@);
        }
        assert(r@ =~= pad_left(s@, width as nat));
    }
    r
}

/// One value in the aligned `[decimal | hex | binary]` form used by every
/// trace line.
pub fn format_value(value: i16) -> (r: String)
    ensures
        r@ == value_box(value),
{
    let mut s = String::new();
    s.append("[");
    let d = dec_i16(value);
    let dp = pad_left_string(d.as_str(), 8);
    s.append(dp.as_str());
    s.append(" | ");
    let h = hex_i16(value);
    let hp = pad_left_string(h.as_str(), 6);
    s.append(hp.as_str());
    s.append(" | ");
    let b = bin_i16(value);
    let bp = pad_left_string(b.as_str(), 18);
    s.append(bp.as_str());
    s.append("]");
    proof {
        assert(s@ =~= value_box(value));
    }
    s
}

/// One rewriting step of the algebraic form: the accumulated string is
/// wrapped according to the operation's notation — unary prefix, or binary
/// infix in parentheses with the operand's decimal numeral. Identity
/// contributes nothing.
pub open spec fn op_render(acc: Seq<char>, op: Operation) -> Seq<char> {
    match op {
        Operation::Identity => acc,
        Operation::BitwiseNot => "~"@ + acc,
        Operation::BitwiseAnd(v) => "("@ + acc + " & "@ + dec_str(v) + ")"@,
        Operation::BitwiseOr(v) => "("@ + acc + " | "@ + dec_str(v) + ")"@,
        Operation::BitwiseXor(v) => "("@ + acc + " ^ "@ + dec_str(v) + ")"@,
        Operation::ShiftLeft(v) => "("@ + acc + " << "@ + dec_str(v) + ")"@,
        Operation::ShiftRight(v) => "("@ + acc + " >> "@ + dec_str(v) + ")"@,
        Operation::LogicalNot => "!"@ + acc,
        Operation::LogicalDoubleNot => "!!"@ + acc,
        Operation::Add(v) => "("@ + acc + " + "@ + dec_str(v) + ")"@,
    }
}

/// The algebraic form of a term sequence: the first term's input as a decimal
/// numeral, wrapped in turn by each subsequent term's operation; empty for an
/// empty sequence.
pub open spec fn ops_string(terms: Seq<Term>) -> Seq<char>
    decreases terms.len(),
{
    if terms.len() == 0 {
        Seq::empty()
    } else if terms.len() == 1 {
        dec_str(terms[0].initial_value)
    } else {
        op_render(ops_string(terms.drop_last()), terms.last().operation)
    }
}

/// Wraps `acc` in parentheses around a binary infix operator and the
/// operand's decimal numeral.
fn wrap_binary(acc: String, infix: &str, v: i16) -> (r: String)
    ensures
        r@ == "("@ + acc@ + infix@ + dec_str(v) + ")"@,
{
    let mut s = String::new();
    s.append("(");
    s.append(acc.as_str());
    s.append(infix);
    let d = dec_i16(v);
    s.append(d.as_str());
    s.append(")");
    proof {
        assert(s@ =~= "("@ + acc@ + infix@ + dec_str(v) + ")"@);
    }
    s
}

/// Prefixes `acc` with a unary operator symbol.
fn wrap_unary(prefix: &str, acc: String) -> (r: String)
    ensures
        r@ == prefix@ + acc@,
{
    let mut s = String::new();
    s.append(prefix);
    s.append(acc.as_str());
    proof {
        assert(s@ =~= prefix@ + acc@);
    }
    s
}

/// Applies one operation's notation to the accumulated algebraic string.
fn render_step(acc: String, operation: Operation) -> (r: String)
    ensures
        r@ == op_render(acc@, operation),
{
    match operation {
        Operation::Identity => acc,
        Operation::BitwiseNot => wrap_unary("~", acc),
        Operation::BitwiseAnd(v) => wrap_binary(acc, " & ", v),
        Operation::BitwiseOr(v) => wrap_binary(acc, " | ", v),
        Operation::BitwiseXor(v) => wrap_binary(acc, " ^ ", v),
        Operation::ShiftLeft(v) => wrap_binary(acc, " << ", v),
        Operation::ShiftRight(v) => wrap_binary(acc, " >> ", v),
        Operation::LogicalNot => wrap_unary("!", acc),
        Operation::LogicalDoubleNot => wrap_unary("!!", acc),
        Operation::Add(v) => wrap_binary(acc, " + ", v),
    }
}

impl Expression {
    /// Renders the chain as one algebraic string: the first term's input in
    /// decimal, wrapped by each subsequent operation's notation. An empty
    /// chain renders as the empty string. Rendering reads the chain without
    /// mutating it, so repeated calls yield identical strings.
    pub fn format_as_ops(&self) -> (r: String)
        ensures
            r@ == ops_string(self.terms@),
            self.terms@.len() == 0 ==> r@ == Seq::<char>::empty(),
    {
        if self.terms.len() == 0 {
            return String::new();
        }
        let first = self.terms[0];
        let mut formatted = dec_i16(first.initial_value);
        proof {
            assert(self.terms@.subrange(0, 1).len() == 1);
            assert(self.terms@.subrange(0, 1)[0] == self.terms@[0]);
        }
        let n = self.terms.len();
        let mut i: usize = 1;
        while i < n
            invariant
                1 <= i <= n,
                n == self.terms@.len(),
                formatted@ == ops_string(self.terms@.subrange(0, i as int)),
            decreases n - i,
        {
            let operation = self.terms[i].operation;
            formatted = render_step(formatted, operation);
            proof {
                let pre = self.terms@.subrange(0, i as int);
                let cur = self.terms@.subrange(0, i + 1);
                assert(cur.drop_last() =~= pre);
                assert(cur.last() == self.terms@[i as int]);
            }
            i = i + 1;
        }
        proof {
            assert(self.terms@.subrange(0, self.terms@.len() as int) =~= self.terms@);
        }
        formatted
    }
}

/// Rendering is a pure function of the chain's terms: chains with identical
/// term sequences render to identical algebraic strings and identical traces.
/// In particular, rendering a chain twice without mutating it in between
/// yields identical strings.
pub proof fn lemma_rendering_deterministic(a: Expression, b: Expression)
    requires
        a.terms@ == b.terms@,
    ensures
        ops_string(a.terms@) == ops_string(b.terms@),
        trace_str(a.terms@) == trace_str(b.terms@),
{
}

/// One trace row's body for a term. A full row spans 40 columns' worth of
/// material for a 16-bit type: the identity row right-aligns its single value
/// box at column 127, unary rows right-align their symbol at column 44 before
/// the input and result boxes, shift rows right-align the shift amount's
/// decimal numeral at column 40, and the other binary rows place the operand's
/// value box between the input and result boxes.
pub open spec fn term_line(t: Term) -> Seq<char> {
    match t.operation {
        Operation::Identity => pad_left(value_box(t.initial_value), 127),
        Operation::BitwiseNot => pad_left("~"@, 44) + value_box(t.initial_value) + " = "@
            + value_box(t.result),
        Operation::LogicalNot => pad_left("!"@, 44) + value_box(t.initial_value) + " = "@
            + value_box(t.result),
        Operation::LogicalDoubleNot => pad_left("!!"@, 44) + value_box(t.initial_value) + " = "@
            + value_box(t.result),
        Operation::BitwiseAnd(v) => value_box(t.initial_value) + " "@ + " & "@ + value_box(v)
            + " = "@ + value_box(t.result),
        Operation::BitwiseOr(v) => value_box(t.initial_value) + " "@ + " | "@ + value_box(v)
            + " = "@ + value_box(t.result),
        Operation::BitwiseXor(v) => value_box(t.initial_value) + " "@ + " ^ "@ + value_box(v)
            + " = "@ + value_box(t.result),
        Operation::Add(v) => value_box(t.initial_value) + " "@ + " + "@ + value_box(v) + " = "@
            + value_box(t.result),
        Operation::ShiftLeft(v) => value_box(t.initial_value) + " "@ + "<< "@ + pad_left(
            dec_str(v),
            40,
        ) + " = "@ + value_box(t.result),
        Operation::ShiftRight(v) => value_box(t.initial_value) + " "@ + ">> "@ + pad_left(
            dec_str(v),
            40,
        ) + " = "@ + value_box(t.result),
    }
}

/// One full trace row: the term's index right-aligned in two columns, a
/// closing parenthesis, the term's body, and a newline.
pub open spec fn line_str(i: nat, t: Term) -> Seq<char> {
    pad_left(digits(i, 10), 2) + ") "@ + term_line(t) + "\n"@
}

/// The multi-line trace of a term sequence: one indexed row per term, in
/// order; empty for an empty sequence.
pub open spec fn trace_str(terms: Seq<Term>) -> Seq<char>
    decreases terms.len(),
{
    if terms.len() == 0 {
        Seq::empty()
    } else {
        trace_str(terms.drop_last()) + line_str((terms.len() - 1) as nat, terms.last())
    }
}

/// A trace row body for a unary operation: the symbol right-aligned at
/// column 44, then the input and result boxes.
fn unary_line(symbol: &str, input: i16, result: i16) -> (r: String)
    ensures
        r@ == pad_left(symbol@, 44) + value_box(input) + " = "@ + value_box(result),
{
    let mut s = pad_left_string(symbol, 44);
    let iv = format_value(input);
    s.append(iv.as_str());
    s.append(" = ");
    let rv = format_value(result);
    s.append(rv.as_str());
    proof {
        assert(s@ =~= pad_left(symbol@, 44) + value_box(input) + " = "@ + value_box(result));
    }
    s
}

/// A trace row body for a binary operation whose operand is shown as a full
/// value box between the input and result boxes.
fn binary_line(input: i16, infix: &str, v: i16, result: i16) -> (r: String)
    ensures
        r@ == value_box(input) + " "@ + infix@ + value_box(v) + " = "@ + value_box(result),
{
    let mut s = format_value(input);
    s.append(" ");
    s.append(infix);
    let vv = format_value(v);
    s.append(vv.as_str());
    s.append(" = ");
    let rv = format_value(result);
    s.append(rv.as_str());
    proof {
        assert(s@ =~= value_box(input) + " "@ + infix@ + value_box(v) + " = "@ + value_box(
            result,
        ));
    }
    s
}

/// A trace row body for a shift, whose amount is shown as a decimal numeral
/// right-aligned at column 40.
fn shift_line(input: i16, prefix: &str, v: i16, result: i16) -> (r: String)
    ensures
        r@ == value_box(input) + " "@ + prefix@ + pad_left(dec_str(v), 40) + " = "@ + value_box(
            result,
        ),
{
    let mut s = format_value(input);
    s.append(" ");
    s.append(prefix);
    let d = dec_i16(v);
    let dp = pad_left_string(d.as_str(), 40);
    s.append(dp.as_str());
    s.append(" = ");
    let rv = format_value(result);
    s.append(rv.as_str());
    proof {
        assert(s@ =~= value_box(input) + " "@ + prefix@ + pad_left(dec_str(v), 40) + " = "@
            + value_box(result));
    }
    s
}

impl Term {
    /// Renders this term's trace row body: its input, operation and result,
    /// each value in the aligned `[decimal | hex | binary]` form.
    pub fn format_line(&self) -> (r: String)
        ensures
            r@ == term_line(*self),
    {
        match self.operation {
            Operation::Identity => {
                let iv = format_value(self.initial_value);
                pad_left_string(iv.as_str(), 127)
            },
            Operation::BitwiseNot => unary_line("~", self.initial_value, self.result),
            Operation::LogicalNot => unary_line("!", self.initial_value, self.result),
            Operation::LogicalDoubleNot => unary_line("!!", self.initial_value, self.result),
            Operation::BitwiseAnd(v) => binary_line(self.initial_value, " & ", v, self.result),
            Operation::BitwiseOr(v) => binary_line(self.initial_value, " | ", v, self.result),
            Operation::BitwiseXor(v) => binary_line(self.initial_value, " ^ ", v, self.result),
            Operation::Add(v) => binary_line(self.initial_value, " + ", v, self.result),
            Operation::ShiftLeft(v) => shift_line(self.initial_value, "<< ", v, self.result),
            Operation::ShiftRight(v) => shift_line(self.initial_value, ">> ", v, self.result),
        }
    }
}

impl Expression {
    /// Renders the chain as a multi-line trace: one row per term, each row
    /// showing the term's index, input, operation and result. An empty chain
    /// renders as the empty string. Rendering reads the chain without
    /// mutating it, so repeated calls yield identical strings.
    pub fn format_trace(&self) -> (r: String)
        ensures
            r@ == trace_str(self.terms@),
            self.terms@.len() == 0 ==> r@ == Seq::<char>::empty(),
    {
        let mut out = String::new();
        let n = self.terms.len();
        let mut i: usize = 0;
        while i < n
            invariant
                i <= n,
                n == self.terms@.len(),
                out@ == trace_str(self.terms@.subrange(0, i as int)),
            decreases n - i,
        {
            let term = self.terms[i];
            let idx = dec_u64(i as u64);
            let idxp = pad_left_string(idx.as_str(), 2);
            out.append(idxp.as_str());
            out.append(") ");
            let body = term.format_line();
            out.append(body.as_str());
            out.append("\n");
            proof {
                let pre = self.terms@.subrange(0, i as int);
                let cur = self.terms@.subrange(0, i + 1);
                assert(cur.drop_last() =~= pre);
                assert(cur.last() == self.terms@[i as int]);
                assert((i as u64) as nat == i as nat);
                assert(out@ =~= trace_str(pre) + line_str(i as nat, self.terms@[i as int]));
                assert(out@ =~= trace_str(cur));
            }
            i = i + 1;
        }
        proof {
            assert(self.terms@.subrange(0, self.terms@.len() as int) =~= self.terms@);
        }
        out
    }
}

} // verus!
