use vstd::prelude::*;
use vstd::string::StrSliceExecFns;

use crate::kernel_args::{all_dec_digits, dec_val, parse_u32_chars};
use crate::text::{digit_val, is_dec_digit, is_hex_digit, starts_with_spec, str_eq, str_starts_with};

verus! {

/// An assembly operand as printed by the GCN disassembler.
#[derive(Debug, Clone, PartialEq)]
pub enum Operand {
    SReg(usize),
    VReg(usize),
    SRegs(usize, usize),
    VRegs(usize, usize),
    Lit(u32),
    VCC,
    Offset(i32),
    Keyseq(String),
}

pub ghost enum OperandView {
    SReg(usize),
    VReg(usize),
    SRegs(usize, usize),
    VRegs(usize, usize),
    Lit(u32),
    VCC,
    Offset(i32),
    Keyseq(Seq<char>),
}

impl View for Operand {
    type V = OperandView;

    open spec fn view(&self) -> OperandView {
        match self {
            Operand::SReg(i) => OperandView::SReg(*i),
            Operand::VReg(i) => OperandView::VReg(*i),
            Operand::SRegs(lo, hi) => OperandView::SRegs(*lo, *hi),
            Operand::VRegs(lo, hi) => OperandView::VRegs(*lo, *hi),
            Operand::Lit(v) => OperandView::Lit(*v),
            Operand::VCC => OperandView::VCC,
            Operand::Offset(v) => OperandView::Offset(*v),
            Operand::Keyseq(s) => OperandView::Keyseq(s@),
        }
    }
}

/// The views of an operand list.
pub open spec fn ovs(v: Seq<Operand>) -> Seq<OperandView> {
    v.map_values(|o: Operand| o@)
}

/// A disassembled instruction: a mnemonic and its operands.
pub type Instruction = (String, Vec<Operand>);

// ------------------------------------------------------------------
// Number literals.
// ------------------------------------------------------------------

pub open spec fn all_hex_digits(s: Seq<char>) -> bool {
    forall|i: int| 0 <= i < s.len() ==> is_hex_digit(s[i])
}

/// Value of a lower-case hexadecimal digit string.
pub open spec fn hex_val(s: Seq<char>) -> int
    decreases s.len(),
{
    if s.len() == 0 {
        0
    } else {
        hex_val(s.drop_last()) * 16 + digit_val(s.last())
    }
}

/// A non-empty lower-case hex string whose value fits in a u32.
pub open spec fn parse_hex_chars(s: Seq<char>) -> Option<u32> {
    if s.len() > 0 && all_hex_digits(s) && hex_val(s) <= u32::MAX {
        Some(hex_val(s) as u32)
    } else {
        None
    }
}

proof fn lemma_hex_val_nonneg(s: Seq<char>)
    requires
        all_hex_digits(s),
    ensures
        hex_val(s) >= 0,
    decreases s.len(),
{
    if s.len() > 0 {
        assert(all_hex_digits(s.drop_last()));
        lemma_hex_val_nonneg(s.drop_last());
    }
}

proof fn lemma_hex_val_prefix(s: Seq<char>, i: int)
    requires
        all_hex_digits(s),
        0 <= i <= s.len(),
    ensures
        hex_val(s.subrange(0, i)) <= hex_val(s),
    decreases s.len() - i,
{
    if i == s.len() {
        assert(s.subrange(0, i) =~= s);
    } else {
        lemma_hex_val_prefix(s, i + 1);
        let t = s.subrange(0, i + 1);
        assert(t.drop_last() =~= s.subrange(0, i));
        assert(all_hex_digits(s.subrange(0, i)));
        lemma_hex_val_nonneg(s.subrange(0, i));
        assert(hex_val(t) == hex_val(s.subrange(0, i)) * 16 + digit_val(s[i]));
    }
}

fn parse_hex_exec(s: &str) -> (r: Option<u32>)
    ensures
        r == parse_hex_chars(s@),
{
    let n = s.unicode_len();
    if n == 0 {
        return None;
    }
    let mut acc: u64 = 0;
    let mut i: usize = 0;
    while i < n
        invariant
            0 <= i <= n,
            n == s@.len(),
            all_hex_digits(s@.subrange(0, i as int)),
            acc == hex_val(s@.subrange(0, i as int)),
            acc <= u32::MAX,
        decreases n - i,
    {
        let ghost pre = s@.subrange(0, i as int);
        let ghost cur = s@.subrange(0, i + 1int);
        proof {
            assert(cur.drop_last() =~= pre);
            assert(cur.last() == s@[i as int]);
        }
        let c = s.get_char(i);
        let d: u32 = if c >= '0' && c <= '9' {
            c as u32 - 48
        } else if c >= 'a' && c <= 'f' {
            c as u32 - 97 + 10
        } else {
            proof {
                assert(!is_hex_digit(s@[i as int]));
                assert(parse_hex_chars(s@) is None);
            }
            return None;
        };
        acc = acc * 16 + d as u64;
        proof {
            assert(all_hex_digits(cur));
            assert(digit_val(s@[i as int]) == d as int);
        }
        if acc > 0xffff_ffffu64 {
            proof {
                if all_hex_digits(s@) {
                    lemma_hex_val_prefix(s@, i + 1);
                }
                assert(parse_hex_chars(s@) is None);
            }
            return None;
        }
        i += 1;
    }
    proof {
        assert(s@.subrange(0, n as int) =~= s@);
    }
    Some(acc as u32)
}

proof fn lemma_dec_val_nonneg_asm(s: Seq<char>)
    requires
        all_dec_digits(s),
    ensures
        dec_val(s) >= 0,
    decreases s.len(),
{
    if s.len() > 0 {
        assert(all_dec_digits(s.drop_last()));
        lemma_dec_val_nonneg_asm(s.drop_last());
    }
}

proof fn lemma_dec_val_prefix_asm(s: Seq<char>, i: int)
    requires
        all_dec_digits(s),
        0 <= i <= s.len(),
    ensures
        dec_val(s.subrange(0, i)) <= dec_val(s),
    decreases s.len() - i,
{
    if i == s.len() {
        assert(s.subrange(0, i) =~= s);
    } else {
        lemma_dec_val_prefix_asm(s, i + 1);
        let t = s.subrange(0, i + 1);
        assert(t.drop_last() =~= s.subrange(0, i));
        assert(all_dec_digits(s.subrange(0, i)));
        lemma_dec_val_nonneg_asm(s.subrange(0, i));
        assert(dec_val(t) == dec_val(s.subrange(0, i)) * 10 + digit_val(s[i]));
    }
}

/// Decimal u32 parsing over a substring of `s`, used by the operand
/// grammar.
fn parse_dec_exec(s: &str) -> (r: Option<u32>)
    ensures
        r == parse_u32_chars(s@),
{
    let n = s.unicode_len();
    if n == 0 {
        return None;
    }
    let mut acc: u64 = 0;
    let mut i: usize = 0;
    while i < n
        invariant
            0 <= i <= n,
            n == s@.len(),
            all_dec_digits(s@.subrange(0, i as int)),
            acc == dec_val(s@.subrange(0, i as int)),
            acc <= u32::MAX,
        decreases n - i,
    {
        let ghost pre = s@.subrange(0, i as int);
        let ghost cur = s@.subrange(0, i + 1int);
        proof {
            assert(cur.drop_last() =~= pre);
            assert(cur.last() == s@[i as int]);
        }
        let c = s.get_char(i);
        if !(c >= '0' && c <= '9') {
            proof {
                assert(!is_dec_digit(s@[i as int]));
                assert(parse_u32_chars(s@) is None);
            }
            return None;
        }
        let d: u32 = c as u32 - 48;
        acc = acc * 10 + d as u64;
        proof {
            assert(all_dec_digits(cur));
            assert(digit_val(s@[i as int]) == d as int);
        }
        if acc > 0xffff_ffffu64 {
            proof {
                if all_dec_digits(s@) {
                    lemma_dec_val_prefix_asm(s@, i + 1);
                }
                assert(parse_u32_chars(s@) is None);
            }
            return None;
        }
        i += 1;
    }
    proof {
        assert(s@.subrange(0, n as int) =~= s@);
    }
    Some(acc as u32)
}

/// A signed 32-bit decimal: an optional minus sign before digits.
pub open spec fn parse_i32_chars(s: Seq<char>) -> Option<i32> {
    if s.len() > 0 && s.first() == '-' {
        match parse_u32_chars(s.drop_first()) {
            Some(m) => if m <= 0x8000_0000u32 {
                Some((-(m as int)) as i32)
            } else {
                None
            },
            None => None,
        }
    } else {
        match parse_u32_chars(s) {
            Some(m) => if m <= 0x7fff_ffffu32 {
                Some(m as i32)
            } else {
                None
            },
            None => None,
        }
    }
}

fn parse_i32_exec(s: &str) -> (r: Option<i32>)
    ensures
        r == parse_i32_chars(s@),
{
    let n = s.unicode_len();
    if n > 0 && s.get_char(0) == '-' {
        let rest = s.substring_char(1, n);
        proof {
            assert(rest@ =~= s@.drop_first());
        }
        match parse_dec_exec(rest) {
            Some(m) => if m <= 0x8000_0000u32 {
                if m == 0x8000_0000u32 {
                    Some(i32::MIN)
                } else {
                    Some(-(m as i32))
                }
            } else {
                None
            },
            None => None,
        }
    } else {
        match parse_dec_exec(s) {
            Some(m) => if m <= 0x7fff_ffffu32 {
                Some(m as i32)
            } else {
                None
            },
            None => None,
        }
    }
}

// ------------------------------------------------------------------
// The operand grammar.
// ------------------------------------------------------------------

/// Index of the first colon in `s`, or `s.len()`.
pub open spec fn first_colon(s: Seq<char>) -> int
    decreases s.len(),
{
    if s.len() == 0 {
        0
    } else if s.first() == ':' {
        0
    } else {
        1 + first_colon(s.drop_first())
    }
}

proof fn lemma_first_colon_at(s: Seq<char>, i: int)
    requires
        0 <= i <= s.len(),
        forall|j: int| 0 <= j < i ==> s[j] != ':',
        i == s.len() || s[i] == ':',
    ensures
        first_colon(s) == i,
    decreases i,
{
    if i > 0 {
        lemma_first_colon_at(s.drop_first(), i - 1);
    }
}

/// A register range `x[lo:hi]` body: the text between the bracketing
/// characters, split at its first colon, both sides read as decimals.
pub open spec fn parse_range(inner: Seq<char>) -> Option<(u32, u32)> {
    let k = first_colon(inner);
    if k == inner.len() {
        None
    } else {
        let second = inner.subrange(k + 1, inner.len() as int);
        let k2 = first_colon(second);
        match parse_u32_chars(inner.subrange(0, k)) {
            None => None,
            Some(lo) => match parse_u32_chars(second.subrange(0, k2)) {
                None => None,
                Some(hi) => Some((lo, hi)),
            },
        }
    }
}

/// One operand, as the disassembler's text grammar reads it: `vcc`,
/// hex and decimal literals, single registers `s<N>`/`v<N>`, register
/// ranges `s[lo:hi]`/`v[lo:hi]`, `offset:<signed>`, and any other text
/// verbatim.
pub open spec fn parse_operand_spec(s: Seq<char>) -> OperandView {
    if s == "vcc"@ {
        OperandView::VCC
    } else if s.len() > 2 && starts_with_spec(s, "0x"@) {
        match parse_hex_chars(s.subrange(2, s.len() as int)) {
            Some(v) => OperandView::Lit(v),
            None => OperandView::Keyseq(s),
        }
    } else if s.len() > 0 && is_dec_digit(s.first()) {
        match parse_u32_chars(s) {
            Some(v) => OperandView::Lit(v),
            None => OperandView::Keyseq(s),
        }
    } else if starts_with_spec(s, "offset:"@) {
        match parse_i32_chars(s.subrange(7, s.len() as int)) {
            Some(v) => OperandView::Offset(v),
            None => OperandView::Keyseq(s),
        }
    } else if s.len() > 0 && (s.first() == 's' || s.first() == 'v') {
        let scalar = s.first() == 's';
        match parse_u32_chars(s.subrange(1, s.len() as int)) {
            Some(i) => if scalar {
                OperandView::SReg(i as usize)
            } else {
                OperandView::VReg(i as usize)
            },
            None => if s.len() < 3 {
                OperandView::Keyseq(s)
            } else {
                match parse_range(s.subrange(2, s.len() - 1)) {
                    Some((lo, hi)) => if scalar {
                        OperandView::SRegs(lo as usize, hi as usize)
                    } else {
                        OperandView::VRegs(lo as usize, hi as usize)
                    },
                    None => OperandView::Keyseq(s),
                }
            },
        }
    } else {
        OperandView::Keyseq(s)
    }
}

/// Parses one operand of the disassembly text.
pub fn parse_operand(s: &str) -> (r: Operand)
    ensures
        r@ == parse_operand_spec(s@),
{
    let n = s.unicode_len();
    if str_eq(s, "vcc") {
        return Operand::VCC;
    }
    proof {
        reveal_strlit("0x");
        reveal_strlit("offset:");
    }
    if n > 2 && str_starts_with(s, "0x") {
        return match parse_hex_exec(s.substring_char(2, n)) {
            Some(v) => Operand::Lit(v),
            None => Operand::Keyseq(s.to_owned()),
        };
    }
    if n > 0 && s.get_char(0) >= '0' && s.get_char(0) <= '9' {
        return match parse_dec_exec(s) {
            Some(v) => Operand::Lit(v),
            None => Operand::Keyseq(s.to_owned()),
        };
    }
    if str_starts_with(s, "offset:") {
        return match parse_i32_exec(s.substring_char(7, n)) {
            Some(v) => Operand::Offset(v),
            None => Operand::Keyseq(s.to_owned()),
        };
    }
    if n > 0 && (s.get_char(0) == 's' || s.get_char(0) == 'v') {
        let scalar = s.get_char(0) == 's';
        match parse_dec_exec(s.substring_char(1, n)) {
            Some(i) => {
                if scalar {
                    return Operand::SReg(i as usize);
                } else {
                    return Operand::VReg(i as usize);
                }
            },
            None => {
                if n < 3 {
                    return Operand::Keyseq(s.to_owned());
                }
                let inner = s.substring_char(2, n - 1);
                match parse_range_exec(inner) {
                    Some((lo, hi)) => {
                        if scalar {
                            return Operand::SRegs(lo as usize, hi as usize);
                        } else {
                            return Operand::VRegs(lo as usize, hi as usize);
                        }
                    },
                    None => {
                        return Operand::Keyseq(s.to_owned());
                    },
                }
            },
        }
    }
    Operand::Keyseq(s.to_owned())
}

fn find_colon(s: &str) -> (r: usize)
    ensures
        r == first_colon(s@),
        r <= s@.len(),
{
    let n = s.unicode_len();
    let mut k: usize = 0;
    while k < n && s.get_char(k) != ':'
        invariant
            0 <= k <= n,
            n == s@.len(),
            forall|j: int| 0 <= j < k ==> s@[j] != ':',
        decreases n - k,
    {
        k += 1;
    }
    proof {
        lemma_first_colon_at(s@, k as int);
    }
    k
}

fn parse_range_exec(inner: &str) -> (r: Option<(u32, u32)>)
    ensures
        r == parse_range(inner@),
{
    let n = inner.unicode_len();
    let k = find_colon(inner);
    if k == n {
        return None;
    }
    let second = inner.substring_char(k + 1, n);
    proof {
        assert(second@ =~= inner@.subrange(k + 1, inner@.len() as int));
    }
    let k2 = find_colon(second);
    let lo = match parse_dec_exec(inner.substring_char(0, k)) {
        Some(v) => v,
        None => {
            return None;
        },
    };
    let hi = match parse_dec_exec(second.substring_char(0, k2)) {
        Some(v) => v,
        None => {
            return None;
        },
    };
    Some((lo, hi))
}

// ------------------------------------------------------------------
// Whole-line parsing.
// ------------------------------------------------------------------

/// Index of the first space in `s`, or `s.len()`.
pub open spec fn first_space(s: Seq<char>) -> int
    decreases s.len(),
{
    if s.len() == 0 {
        0
    } else if s.first() == ' ' {
        0
    } else {
        1 + first_space(s.drop_first())
    }
}

proof fn lemma_first_space_at(s: Seq<char>, i: int)
    requires
        0 <= i <= s.len(),
        forall|j: int| 0 <= j < i ==> s[j] != ' ',
        i == s.len() || s[i] == ' ',
    ensures
        first_space(s) == i,
    decreases i,
{
    if i > 0 {
        lemma_first_space_at(s.drop_first(), i - 1);
    }
}

/// Index of the first `, ` separator in `s`, or `s.len()`.
pub open spec fn first_sep(s: Seq<char>) -> int
    decreases s.len(),
{
    if s.len() == 0 {
        0
    } else if s.first() == ',' && s.len() >= 2 && s[1] == ' ' {
        0
    } else {
        1 + first_sep(s.drop_first())
    }
}

proof fn lemma_first_sep_at(s: Seq<char>, i: int)
    requires
        0 <= i <= s.len(),
        forall|j: int| 0 <= j < i ==> !(#[trigger] s[j] == ',' && j + 1 < s.len() && s[j + 1] == ' '),
        i == s.len() || (s[i] == ',' && i + 1 < s.len() && s[i + 1] == ' '),
    ensures
        first_sep(s) == i,
    decreases i,
{
    if i > 0 {
        assert(forall|j: int|
            0 <= j < i - 1 ==> !(#[trigger] s.drop_first()[j] == ',' && j + 1
                < s.drop_first().len() && s.drop_first()[j + 1] == ' '));
        lemma_first_sep_at(s.drop_first(), i - 1);
    }
}

proof fn lemma_first_sep_bounds(s: Seq<char>)
    ensures
        0 <= first_sep(s) <= s.len(),
        first_sep(s) < s.len() ==> first_sep(s) + 2 <= s.len(),
    decreases s.len(),
{
    if s.len() > 0 && !(s.first() == ',' && s.len() >= 2 && s[1] == ' ') {
        lemma_first_sep_bounds(s.drop_first());
    }
}

/// The operand texts: `s` split at each `, ` separator.
pub open spec fn split_ops(s: Seq<char>) -> Seq<Seq<char>>
    decreases s.len(),
{
    let k = first_sep(s);
    if k < 0 || k + 2 > s.len() {
        seq![s]
    } else {
        seq![s.subrange(0, k)] + split_ops(s.subrange(k + 2, s.len() as int))
    }
}

/// What a disassembly line parses to: the mnemonic before the first
/// space, and one operand per `, `-separated piece of the rest.
pub open spec fn parse_instruction_spec(line: Seq<char>) -> (Seq<char>, Seq<OperandView>) {
    let sp = first_space(line);
    let mnemonic = line.subrange(0, sp);
    if sp >= line.len() {
        (mnemonic, Seq::empty())
    } else {
        (
            mnemonic,
            split_ops(line.subrange(sp + 1, line.len() as int)).map_values(
                |t: Seq<char>| parse_operand_spec(t),
            ),
        )
    }
}

fn parse_ops(s: &str) -> (r: Vec<Operand>)
    ensures
        ovs(r@) == split_ops(s@).map_values(|t: Seq<char>| parse_operand_spec(t)),
    decreases s@.len(),
{
    let n = s.unicode_len();
    let mut k: usize = 0;
    while k < n && !(s.get_char(k) == ',' && k + 1 < n && s.get_char(k + 1) == ' ')
        invariant
            0 <= k <= n,
            n == s@.len(),
            forall|j: int| 0 <= j < k ==> !(#[trigger] s@[j] == ',' && j + 1 < n && s@[j + 1]
                == ' '),
        decreases n - k,
    {
        k += 1;
    }
    proof {
        lemma_first_sep_at(s@, k as int);
    }
    if k == n {
        let op = parse_operand(s);
        let mut r: Vec<Operand> = Vec::new();
        r.push(op);
        proof {
            assert(s@.subrange(0, n as int) =~= s@);
            assert(ovs(r@) =~= split_ops(s@).map_values(|t: Seq<char>| parse_operand_spec(t)));
        }
        r
    } else {
        proof {
            lemma_first_sep_bounds(s@);
        }
        let op = parse_operand(s.substring_char(0, k));
        let rest_str = s.substring_char(k + 2, n);
        let mut rest = parse_ops(rest_str);
        let ghost rest_view = rest@;
        let mut r: Vec<Operand> = Vec::new();
        r.push(op);
        r.append(&mut rest);
        proof {
            assert(rest_str@ == s@.subrange(k + 2, n as int));
            assert(ovs(r@) =~= seq![op@] + ovs(rest_view));
            assert(ovs(r@) =~= split_ops(s@).map_values(|t: Seq<char>| parse_operand_spec(t)));
        }
        r
    }
}

/// Parses one line of disassembly text into a mnemonic and operands.
pub fn parse_instruction(line: &str) -> (r: Instruction)
    ensures
        r.0@ == parse_instruction_spec(line@).0,
        ovs(r.1@) == parse_instruction_spec(line@).1,
{
    let n = line.unicode_len();
    let mut sp: usize = 0;
    while sp < n && line.get_char(sp) != ' '
        invariant
            0 <= sp <= n,
            n == line@.len(),
            forall|j: int| 0 <= j < sp ==> line@[j] != ' ',
        decreases n - sp,
    {
        sp += 1;
    }
    proof {
        lemma_first_space_at(line@, sp as int);
    }
    let mnemonic: String = line.substring_char(0, sp).to_owned();
    if sp == n {
        let ops: Vec<Operand> = Vec::new();
        proof {
            assert(ovs(ops@) =~= Seq::<OperandView>::empty());
        }
        (mnemonic, ops)
    } else {
        let ops = parse_ops(line.substring_char(sp + 1, n));
        (mnemonic, ops)
    }
}

} // verus!
