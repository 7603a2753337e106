//! The streaming trace format: one self-describing header, then one
//! self-contained record per completed instruction, as a comma-separated
//! sequence inside a closed container.
//!
//! Every encoder is specified exactly: the bytes appended to the output are
//! stated byte-for-byte by the `*_json` specification functions.
use vstd::prelude::*;

use crate::instruction::{InsnInfo, JumpKind, Info as RecordInfo, RecordModel};
use crate::register::{Info, InfoModel, RegisterInfo};
use crate::{AddressMode, Architecture, Event};

verus! {

/// The byte `"`.
pub const QUOTE: u8 = 0x22;

/// The byte `,`.
pub const COMMA: u8 = 0x2c;

/// The byte `[`.
pub const LBRACK: u8 = 0x5b;

/// The byte `]`.
pub const RBRACK: u8 = 0x5d;

/// The byte `}`.
pub const RBRACE: u8 = 0x7d;

/// The byte `\`.
pub const BACKSLASH: u8 = 0x5c;

/// The ASCII digit for `d % 10`.
pub open spec fn digit_byte(d: nat) -> u8 {
    (0x30 + d % 10) as u8
}

/// The decimal digits of `n`, most significant first.
pub open spec fn dec(n: nat) -> Seq<u8>
    decreases n,
{
    if n < 10 {
        seq![digit_byte(n)]
    } else {
        dec(n / 10).push(digit_byte(n % 10))
    }
}

/// The lower-case hexadecimal digit for `d % 16`.
pub open spec fn hex_digit(d: nat) -> u8 {
    if d % 16 < 10 {
        (0x30 + d % 16) as u8
    } else {
        (0x57 + d % 16) as u8
    }
}

/// The escaped form of one byte inside a quoted string: quotes and
/// backslashes get a backslash, control bytes become `\u00..`, and every
/// other byte stands for itself.
pub open spec fn esc_byte(b: u8) -> Seq<u8> {
    if b == QUOTE {
        seq![BACKSLASH, QUOTE]
    } else if b == BACKSLASH {
        seq![BACKSLASH, BACKSLASH]
    } else if b < 0x20 {
        seq![BACKSLASH, 0x75u8, 0x30u8, 0x30u8, hex_digit((b / 16) as nat), hex_digit(b as nat)]
    } else {
        seq![b]
    }
}

/// The escaped form of a whole string.
pub open spec fn esc(s: Seq<u8>) -> Seq<u8>
    decreases s.len(),
{
    if s.len() == 0 {
        Seq::empty()
    } else {
        esc_byte(s[0]) + esc(s.drop_first())
    }
}

/// The items joined with commas, with no trailing separator.
pub open spec fn csv(items: Seq<Seq<u8>>) -> Seq<u8>
    decreases items.len(),
{
    if items.len() == 0 {
        Seq::empty()
    } else if items.len() == 1 {
        items[0]
    } else {
        items[0] + seq![COMMA] + csv(items.drop_first())
    }
}

/// Escaping distributes over appending one byte.
pub proof fn lemma_esc_push(s: Seq<u8>, b: u8)
    ensures
        esc(s.push(b)) == esc(s) + esc_byte(b),
    decreases s.len(),
{
    if s.len() == 0 {
        assert(s.push(b).drop_first() =~= s);
        assert(esc(s.push(b)) =~= esc(s) + esc_byte(b));
    } else {
        assert(s.push(b).drop_first() =~= s.drop_first().push(b));
        lemma_esc_push(s.drop_first(), b);
        assert(esc(s.push(b)) =~= esc(s) + esc_byte(b));
    }
}

/// Joining distributes over appending one item.
pub proof fn lemma_csv_push(items: Seq<Seq<u8>>, x: Seq<u8>)
    ensures
        csv(items.push(x)) == if items.len() == 0 {
            x
        } else {
            csv(items) + seq![COMMA] + x
        },
    decreases items.len(),
{
    if items.len() == 0 {
        assert(csv(items.push(x)) =~= x);
    } else if items.len() == 1 {
        assert(items.push(x).drop_first() =~= seq![x]);
        assert(csv(seq![x]) == x);
        assert(items.push(x)[0] == items[0]);
        assert(csv(items.push(x)) =~= csv(items) + seq![COMMA] + x);
    } else {
        assert(items.push(x).drop_first() =~= items.drop_first().push(x));
        lemma_csv_push(items.drop_first(), x);
        assert(csv(items.push(x)) =~= csv(items) + seq![COMMA] + x);
    }
}

/// Appends the decimal digits of `n` to `out`.
pub fn put_u64(out: &mut Vec<u8>, n: u64)
    ensures
        final(out)@ == old(out)@ + dec(n as nat),
    decreases n,
{
    if n < 10 {
        out.push(0x30 + (n as u8));
        proof {
            assert(out@ =~= old(out)@ + dec(n as nat));
        }
    } else {
        put_u64(out, n / 10);
        out.push(0x30 + ((n % 10) as u8));
        proof {
            assert(out@ =~= old(out)@ + dec(n as nat));
        }
    }
}

/// Appends the escaped form of `s` to `out`.
pub fn put_escaped(out: &mut Vec<u8>, s: &Vec<u8>)
    ensures
        final(out)@ == old(out)@ + esc(s@),
{
    let mut idx: usize = 0;
    while idx < s.len()
        invariant
            idx <= s.len(),
            out@ == old(out)@ + esc(s@.take(idx as int)),
        decreases s.len() - idx,
    {
        let b = s[idx];
        if b == QUOTE {
            out.push(BACKSLASH);
            out.push(QUOTE);
        } else if b == BACKSLASH {
            out.push(BACKSLASH);
            out.push(BACKSLASH);
        } else if b < 0x20 {
            out.push(BACKSLASH);
            out.push(0x75);
            out.push(0x30);
            out.push(0x30);
            if b / 16 < 10 {
                out.push(0x30 + b / 16);
            } else {
                out.push(0x57 + b / 16);
            }
            if b % 16 < 10 {
                out.push(0x30 + b % 16);
            } else {
                out.push(0x57 + b % 16);
            }
        } else {
            out.push(b);
        }
        proof {
            assert(s@.take(idx as int + 1) =~= s@.take(idx as int).push(s@[idx as int]));
            lemma_esc_push(s@.take(idx as int), s@[idx as int]);
            assert(out@ =~= old(out)@ + esc(s@.take(idx as int + 1)));
        }
        idx = idx + 1;
    }
    proof {
        assert(s@.take(s@.len() as int) =~= s@);
    }
}

/// The byte sequence `{"info":{"width":`.
pub open spec fn lab_h_info() -> Seq<u8> {
    seq![0x7bu8, 0x22u8, 0x69u8, 0x6eu8, 0x66u8, 0x6fu8, 0x22u8, 0x3au8, 0x7bu8, 0x22u8, 0x77u8, 0x69u8, 0x64u8, 0x74u8, 0x68u8, 0x22u8, 0x3au8]
}

fn put_h_info(out: &mut Vec<u8>)
    ensures
        final(out)@ == old(out)@ + lab_h_info(),
{
    out.push(0x7b);
    out.push(0x22);
    out.push(0x69);
    out.push(0x6e);
    out.push(0x66);
    out.push(0x6f);
    out.push(0x22);
    out.push(0x3a);
    out.push(0x7b);
    out.push(0x22);
    out.push(0x77);
    out.push(0x69);
    out.push(0x64);
    out.push(0x74);
    out.push(0x68);
    out.push(0x22);
    out.push(0x3a);
    proof {
        assert(out@ =~= old(out)@ + lab_h_info());
    }
}

/// The byte sequence `,"registers":[`.
pub open spec fn lab_h_regs() -> Seq<u8> {
    seq![0x2cu8, 0x22u8, 0x72u8, 0x65u8, 0x67u8, 0x69u8, 0x73u8, 0x74u8, 0x65u8, 0x72u8, 0x73u8, 0x22u8, 0x3au8, 0x5bu8]
}

fn put_h_regs(out: &mut Vec<u8>)
    ensures
        final(out)@ == old(out)@ + lab_h_regs(),
{
    out.push(0x2c);
    out.push(0x22);
    out.push(0x72);
    out.push(0x65);
    out.push(0x67);
    out.push(0x69);
    out.push(0x73);
    out.push(0x74);
    out.push(0x65);
    out.push(0x72);
    out.push(0x73);
    out.push(0x22);
    out.push(0x3a);
    out.push(0x5b);
    proof {
        assert(out@ =~= old(out)@ + lab_h_regs());
    }
}

/// The byte sequence `],"memory":[`.
pub open spec fn lab_h_mem() -> Seq<u8> {
    seq![0x5du8, 0x2cu8, 0x22u8, 0x6du8, 0x65u8, 0x6du8, 0x6fu8, 0x72u8, 0x79u8, 0x22u8, 0x3au8, 0x5bu8]
}

fn put_h_mem(out: &mut Vec<u8>)
    ensures
        final(out)@ == old(out)@ + lab_h_mem(),
{
    out.push(0x5d);
    out.push(0x2c);
    out.push(0x22);
    out.push(0x6d);
    out.push(0x65);
    out.push(0x6d);
    out.push(0x6f);
    out.push(0x72);
    out.push(0x79);
    out.push(0x22);
    out.push(0x3a);
    out.push(0x5b);
    proof {
        assert(out@ =~= old(out)@ + lab_h_mem());
    }
}

/// The byte sequence `]},"instructions":[`.
pub open spec fn lab_h_insns() -> Seq<u8> {
    seq![0x5du8, 0x7du8, 0x2cu8, 0x22u8, 0x69u8, 0x6eu8, 0x73u8, 0x74u8, 0x72u8, 0x75u8, 0x63u8, 0x74u8, 0x69u8, 0x6fu8, 0x6eu8, 0x73u8, 0x22u8, 0x3au8, 0x5bu8]
}

fn put_h_insns(out: &mut Vec<u8>)
    ensures
        final(out)@ == old(out)@ + lab_h_insns(),
{
    out.push(0x5d);
    out.push(0x7d);
    out.push(0x2c);
    out.push(0x22);
    out.push(0x69);
    out.push(0x6e);
    out.push(0x73);
    out.push(0x74);
    out.push(0x72);
    out.push(0x75);
    out.push(0x63);
    out.push(0x74);
    out.push(0x69);
    out.push(0x6f);
    out.push(0x6e);
    out.push(0x73);
    out.push(0x22);
    out.push(0x3a);
    out.push(0x5b);
    proof {
        assert(out@ =~= old(out)@ + lab_h_insns());
    }
}

/// The byte sequence `]}`.
pub open spec fn lab_close() -> Seq<u8> {
    seq![0x5du8, 0x7du8]
}

fn put_close(out: &mut Vec<u8>)
    ensures
        final(out)@ == old(out)@ + lab_close(),
{
    out.push(0x5d);
    out.push(0x7d);
    proof {
        assert(out@ =~= old(out)@ + lab_close());
    }
}

/// The byte sequence `{"name":"`.
pub open spec fn lab_r_name() -> Seq<u8> {
    seq![0x7bu8, 0x22u8, 0x6eu8, 0x61u8, 0x6du8, 0x65u8, 0x22u8, 0x3au8, 0x22u8]
}

fn put_r_name(out: &mut Vec<u8>)
    ensures
        final(out)@ == old(out)@ + lab_r_name(),
{
    out.push(0x7b);
    out.push(0x22);
    out.push(0x6e);
    out.push(0x61);
    out.push(0x6d);
    out.push(0x65);
    out.push(0x22);
    out.push(0x3a);
    out.push(0x22);
    proof {
        assert(out@ =~= old(out)@ + lab_r_name());
    }
}

/// The byte sequence `","register":`.
pub open spec fn lab_r_register() -> Seq<u8> {
    seq![0x22u8, 0x2cu8, 0x22u8, 0x72u8, 0x65u8, 0x67u8, 0x69u8, 0x73u8, 0x74u8, 0x65u8, 0x72u8, 0x22u8, 0x3au8]
}

fn put_r_register(out: &mut Vec<u8>)
    ensures
        final(out)@ == old(out)@ + lab_r_register(),
{
    out.push(0x22);
    out.push(0x2c);
    out.push(0x22);
    out.push(0x72);
    out.push(0x65);
    out.push(0x67);
    out.push(0x69);
    out.push(0x73);
    out.push(0x74);
    out.push(0x65);
    out.push(0x72);
    out.push(0x22);
    out.push(0x3a);
    proof {
        assert(out@ =~= old(out)@ + lab_r_register());
    }
}

/// The byte sequence `,"base":`.
pub open spec fn lab_r_base() -> Seq<u8> {
    seq![0x2cu8, 0x22u8, 0x62u8, 0x61u8, 0x73u8, 0x65u8, 0x22u8, 0x3au8]
}

fn put_r_base(out: &mut Vec<u8>)
    ensures
        final(out)@ == old(out)@ + lab_r_base(),
{
    out.push(0x2c);
    out.push(0x22);
    out.push(0x62);
    out.push(0x61);
    out.push(0x73);
    out.push(0x65);
    out.push(0x22);
    out.push(0x3a);
    proof {
        assert(out@ =~= old(out)@ + lab_r_base());
    }
}

/// The byte sequence `,"full_register":`.
pub open spec fn lab_r_full() -> Seq<u8> {
    seq![0x2cu8, 0x22u8, 0x66u8, 0x75u8, 0x6cu8, 0x6cu8, 0x5fu8, 0x72u8, 0x65u8, 0x67u8, 0x69u8, 0x73u8, 0x74u8, 0x65u8, 0x72u8, 0x22u8, 0x3au8]
}

fn put_r_full(out: &mut Vec<u8>)
    ensures
        final(out)@ == old(out)@ + lab_r_full(),
{
    out.push(0x2c);
    out.push(0x22);
    out.push(0x66);
    out.push(0x75);
    out.push(0x6c);
    out.push(0x6c);
    out.push(0x5f);
    out.push(0x72);
    out.push(0x65);
    out.push(0x67);
    out.push(0x69);
    out.push(0x73);
    out.push(0x74);
    out.push(0x65);
    out.push(0x72);
    out.push(0x22);
    out.push(0x3a);
    proof {
        assert(out@ =~= old(out)@ + lab_r_full());
    }
}

/// The byte sequence `,"size":`.
pub open spec fn lab_r_size() -> Seq<u8> {
    seq![0x2cu8, 0x22u8, 0x73u8, 0x69u8, 0x7au8, 0x65u8, 0x22u8, 0x3au8]
}

fn put_r_size(out: &mut Vec<u8>)
    ensures
        final(out)@ == old(out)@ + lab_r_size(),
{
    out.push(0x2c);
    out.push(0x22);
    out.push(0x73);
    out.push(0x69);
    out.push(0x7a);
    out.push(0x65);
    out.push(0x22);
    out.push(0x3a);
    proof {
        assert(out@ =~= old(out)@ + lab_r_size());
    }
}

/// The byte sequence `null`.
pub open spec fn lab_null() -> Seq<u8> {
    seq![0x6eu8, 0x75u8, 0x6cu8, 0x6cu8]
}

fn put_null(out: &mut Vec<u8>)
    ensures
        final(out)@ == old(out)@ + lab_null(),
{
    out.push(0x6e);
    out.push(0x75);
    out.push(0x6c);
    out.push(0x6c);
    proof {
        assert(out@ =~= old(out)@ + lab_null());
    }
}

/// The byte sequence `{"addr":`.
pub open spec fn lab_c_addr() -> Seq<u8> {
    seq![0x7bu8, 0x22u8, 0x61u8, 0x64u8, 0x64u8, 0x72u8, 0x22u8, 0x3au8]
}

fn put_c_addr(out: &mut Vec<u8>)
    ensures
        final(out)@ == old(out)@ + lab_c_addr(),
{
    out.push(0x7b);
    out.push(0x22);
    out.push(0x61);
    out.push(0x64);
    out.push(0x64);
    out.push(0x72);
    out.push(0x22);
    out.push(0x3a);
    proof {
        assert(out@ =~= old(out)@ + lab_c_addr());
    }
}

/// The byte sequence `,"insn":[`.
pub open spec fn lab_c_insn() -> Seq<u8> {
    seq![0x2cu8, 0x22u8, 0x69u8, 0x6eu8, 0x73u8, 0x6eu8, 0x22u8, 0x3au8, 0x5bu8]
}

fn put_c_insn(out: &mut Vec<u8>)
    ensures
        final(out)@ == old(out)@ + lab_c_insn(),
{
    out.push(0x2c);
    out.push(0x22);
    out.push(0x69);
    out.push(0x6e);
    out.push(0x73);
    out.push(0x6e);
    out.push(0x22);
    out.push(0x3a);
    out.push(0x5b);
    proof {
        assert(out@ =~= old(out)@ + lab_c_insn());
    }
}

/// The byte sequence `],"size":`.
pub open spec fn lab_c_size() -> Seq<u8> {
    seq![0x5du8, 0x2cu8, 0x22u8, 0x73u8, 0x69u8, 0x7au8, 0x65u8, 0x22u8, 0x3au8]
}

fn put_c_size(out: &mut Vec<u8>)
    ensures
        final(out)@ == old(out)@ + lab_c_size(),
{
    out.push(0x5d);
    out.push(0x2c);
    out.push(0x22);
    out.push(0x73);
    out.push(0x69);
    out.push(0x7a);
    out.push(0x65);
    out.push(0x22);
    out.push(0x3a);
    proof {
        assert(out@ =~= old(out)@ + lab_c_size());
    }
}

/// The byte sequence `,"kind":`.
pub open spec fn lab_c_kind() -> Seq<u8> {
    seq![0x2cu8, 0x22u8, 0x6bu8, 0x69u8, 0x6eu8, 0x64u8, 0x22u8, 0x3au8]
}

fn put_c_kind(out: &mut Vec<u8>)
    ensures
        final(out)@ == old(out)@ + lab_c_kind(),
{
    out.push(0x2c);
    out.push(0x22);
    out.push(0x6b);
    out.push(0x69);
    out.push(0x6e);
    out.push(0x64);
    out.push(0x22);
    out.push(0x3a);
    proof {
        assert(out@ =~= old(out)@ + lab_c_kind());
    }
}

/// The byte sequence `,"events":[`.
pub open spec fn lab_c_events() -> Seq<u8> {
    seq![0x2cu8, 0x22u8, 0x65u8, 0x76u8, 0x65u8, 0x6eu8, 0x74u8, 0x73u8, 0x22u8, 0x3au8, 0x5bu8]
}

fn put_c_events(out: &mut Vec<u8>)
    ensures
        final(out)@ == old(out)@ + lab_c_events(),
{
    out.push(0x2c);
    out.push(0x22);
    out.push(0x65);
    out.push(0x76);
    out.push(0x65);
    out.push(0x6e);
    out.push(0x74);
    out.push(0x73);
    out.push(0x22);
    out.push(0x3a);
    out.push(0x5b);
    proof {
        assert(out@ =~= old(out)@ + lab_c_events());
    }
}

/// The byte sequence `{"RegRead":`.
pub open spec fn lab_e_regread() -> Seq<u8> {
    seq![0x7bu8, 0x22u8, 0x52u8, 0x65u8, 0x67u8, 0x52u8, 0x65u8, 0x61u8, 0x64u8, 0x22u8, 0x3au8]
}

fn put_e_regread(out: &mut Vec<u8>)
    ensures
        final(out)@ == old(out)@ + lab_e_regread(),
{
    out.push(0x7b);
    out.push(0x22);
    out.push(0x52);
    out.push(0x65);
    out.push(0x67);
    out.push(0x52);
    out.push(0x65);
    out.push(0x61);
    out.push(0x64);
    out.push(0x22);
    out.push(0x3a);
    proof {
        assert(out@ =~= old(out)@ + lab_e_regread());
    }
}

/// The byte sequence `{"RegWrite":[`.
pub open spec fn lab_e_regwrite() -> Seq<u8> {
    seq![0x7bu8, 0x22u8, 0x52u8, 0x65u8, 0x67u8, 0x57u8, 0x72u8, 0x69u8, 0x74u8, 0x65u8, 0x22u8, 0x3au8, 0x5bu8]
}

fn put_e_regwrite(out: &mut Vec<u8>)
    ensures
        final(out)@ == old(out)@ + lab_e_regwrite(),
{
    out.push(0x7b);
    out.push(0x22);
    out.push(0x52);
    out.push(0x65);
    out.push(0x67);
    out.push(0x57);
    out.push(0x72);
    out.push(0x69);
    out.push(0x74);
    out.push(0x65);
    out.push(0x22);
    out.push(0x3a);
    out.push(0x5b);
    proof {
        assert(out@ =~= old(out)@ + lab_e_regwrite());
    }
}

/// The byte sequence `{"MemRead":`.
pub open spec fn lab_e_memread() -> Seq<u8> {
    seq![0x7bu8, 0x22u8, 0x4du8, 0x65u8, 0x6du8, 0x52u8, 0x65u8, 0x61u8, 0x64u8, 0x22u8, 0x3au8]
}

fn put_e_memread(out: &mut Vec<u8>)
    ensures
        final(out)@ == old(out)@ + lab_e_memread(),
{
    out.push(0x7b);
    out.push(0x22);
    out.push(0x4d);
    out.push(0x65);
    out.push(0x6d);
    out.push(0x52);
    out.push(0x65);
    out.push(0x61);
    out.push(0x64);
    out.push(0x22);
    out.push(0x3a);
    proof {
        assert(out@ =~= old(out)@ + lab_e_memread());
    }
}

/// The byte sequence `{"MemWrite":[`.
pub open spec fn lab_e_memwrite() -> Seq<u8> {
    seq![0x7bu8, 0x22u8, 0x4du8, 0x65u8, 0x6du8, 0x57u8, 0x72u8, 0x69u8, 0x74u8, 0x65u8, 0x22u8, 0x3au8, 0x5bu8]
}

fn put_e_memwrite(out: &mut Vec<u8>)
    ensures
        final(out)@ == old(out)@ + lab_e_memwrite(),
{
    out.push(0x7b);
    out.push(0x22);
    out.push(0x4d);
    out.push(0x65);
    out.push(0x6d);
    out.push(0x57);
    out.push(0x72);
    out.push(0x69);
    out.push(0x74);
    out.push(0x65);
    out.push(0x22);
    out.push(0x3a);
    out.push(0x5b);
    proof {
        assert(out@ =~= old(out)@ + lab_e_memwrite());
    }
}

/// The byte sequence `"Call"`.
pub open spec fn lab_k_call() -> Seq<u8> {
    seq![0x22u8, 0x43u8, 0x61u8, 0x6cu8, 0x6cu8, 0x22u8]
}

fn put_k_call(out: &mut Vec<u8>)
    ensures
        final(out)@ == old(out)@ + lab_k_call(),
{
    out.push(0x22);
    out.push(0x43);
    out.push(0x61);
    out.push(0x6c);
    out.push(0x6c);
    out.push(0x22);
    proof {
        assert(out@ =~= old(out)@ + lab_k_call());
    }
}

/// The byte sequence `"Return"`.
pub open spec fn lab_k_return() -> Seq<u8> {
    seq![0x22u8, 0x52u8, 0x65u8, 0x74u8, 0x75u8, 0x72u8, 0x6eu8, 0x22u8]
}

fn put_k_return(out: &mut Vec<u8>)
    ensures
        final(out)@ == old(out)@ + lab_k_return(),
{
    out.push(0x22);
    out.push(0x52);
    out.push(0x65);
    out.push(0x74);
    out.push(0x75);
    out.push(0x72);
    out.push(0x6e);
    out.push(0x22);
    proof {
        assert(out@ =~= old(out)@ + lab_k_return());
    }
}

/// The byte sequence `"Unconditional"`.
pub open spec fn lab_k_uncond() -> Seq<u8> {
    seq![0x22u8, 0x55u8, 0x6eu8, 0x63u8, 0x6fu8, 0x6eu8, 0x64u8, 0x69u8, 0x74u8, 0x69u8, 0x6fu8, 0x6eu8, 0x61u8, 0x6cu8, 0x22u8]
}

fn put_k_uncond(out: &mut Vec<u8>)
    ensures
        final(out)@ == old(out)@ + lab_k_uncond(),
{
    out.push(0x22);
    out.push(0x55);
    out.push(0x6e);
    out.push(0x63);
    out.push(0x6f);
    out.push(0x6e);
    out.push(0x64);
    out.push(0x69);
    out.push(0x74);
    out.push(0x69);
    out.push(0x6f);
    out.push(0x6e);
    out.push(0x61);
    out.push(0x6c);
    out.push(0x22);
    proof {
        assert(out@ =~= old(out)@ + lab_k_uncond());
    }
}

/// The byte sequence `"Conditional"`.
pub open spec fn lab_k_cond() -> Seq<u8> {
    seq![0x22u8, 0x43u8, 0x6fu8, 0x6eu8, 0x64u8, 0x69u8, 0x74u8, 0x69u8, 0x6fu8, 0x6eu8, 0x61u8, 0x6cu8, 0x22u8]
}

fn put_k_cond(out: &mut Vec<u8>)
    ensures
        final(out)@ == old(out)@ + lab_k_cond(),
{
    out.push(0x22);
    out.push(0x43);
    out.push(0x6f);
    out.push(0x6e);
    out.push(0x64);
    out.push(0x69);
    out.push(0x74);
    out.push(0x69);
    out.push(0x6f);
    out.push(0x6e);
    out.push(0x61);
    out.push(0x6c);
    out.push(0x22);
    proof {
        assert(out@ =~= old(out)@ + lab_k_cond());
    }
}

/// The decimal encodings of the bytes of `s`, one item per byte.
pub open spec fn byte_items(s: Seq<u8>) -> Seq<Seq<u8>> {
    s.map_values(|b: u8| dec(b as nat))
}

/// Appends the bytes of `s` as comma-separated decimal numbers.
fn put_byte_csv(out: &mut Vec<u8>, s: &Vec<u8>)
    ensures
        final(out)@ == old(out)@ + csv(byte_items(s@)),
{
    let mut idx: usize = 0;
    while idx < s.len()
        invariant
            idx <= s.len(),
            out@ == old(out)@ + csv(byte_items(s@.take(idx as int))),
        decreases s.len() - idx,
    {
        if idx > 0 {
            out.push(COMMA);
        }
        put_u64(out, s[idx] as u64);
        proof {
            assert(byte_items(s@.take(idx as int + 1)) =~= byte_items(s@.take(idx as int)).push(
                dec(s@[idx as int] as nat),
            ));
            lemma_csv_push(byte_items(s@.take(idx as int)), dec(s@[idx as int] as nat));
            assert(out@ =~= old(out)@ + csv(byte_items(s@.take(idx as int + 1))));
        }
        idx = idx + 1;
    }
    proof {
        assert(s@.take(s@.len() as int) =~= s@);
    }
}

/// A byte buffer as an array of decimal numbers.
pub open spec fn bytes_json(s: Seq<u8>) -> Seq<u8> {
    seq![LBRACK] + csv(byte_items(s)) + seq![RBRACK]
}

fn put_bytes_json(out: &mut Vec<u8>, s: &Vec<u8>)
    ensures
        final(out)@ == old(out)@ + bytes_json(s@),
{
    out.push(LBRACK);
    put_byte_csv(out, s);
    out.push(RBRACK);
    proof {
        assert(out@ =~= old(out)@ + bytes_json(s@));
    }
}

/// One sub-event as a tagged object. Registers stand as their numeric
/// identities and addresses as their numeric values; the events that open,
/// close or end a record never stand inside one and encode as `null`.
pub open spec fn event_json<A: Architecture>(e: Event<A>) -> Seq<u8> {
    match e {
        Event::RegRead(r) => lab_e_regread() + dec(r.value_spec() as nat) + seq![RBRACE],
        Event::RegWrite(r, v) => lab_e_regwrite() + dec(r.value_spec() as nat) + seq![COMMA]
            + bytes_json(v@) + seq![RBRACK, RBRACE],
        Event::MemRead(a) => lab_e_memread() + dec(a.value_spec() as nat) + seq![RBRACE],
        Event::MemWrite(a, v) => lab_e_memwrite() + dec(a.value_spec() as nat) + seq![COMMA] + dec(
            v.value_spec() as nat,
        ) + seq![RBRACK, RBRACE],
        _ => lab_null(),
    }
}

fn put_event<A: Architecture>(out: &mut Vec<u8>, e: &Event<A>)
    ensures
        final(out)@ == old(out)@ + event_json(*e),
{
    match e {
        Event::RegRead(r) => {
            put_e_regread(out);
            put_u64(out, r.value());
            out.push(RBRACE);
        },
        Event::RegWrite(r, v) => {
            put_e_regwrite(out);
            put_u64(out, r.value());
            out.push(COMMA);
            put_bytes_json(out, v);
            out.push(RBRACK);
            out.push(RBRACE);
        },
        Event::MemRead(a) => {
            put_e_memread(out);
            put_u64(out, a.value());
            out.push(RBRACE);
        },
        Event::MemWrite(a, v) => {
            put_e_memwrite(out);
            put_u64(out, a.value());
            out.push(COMMA);
            put_u64(out, v.value());
            out.push(RBRACK);
            out.push(RBRACE);
        },
        _ => {
            put_null(out);
        },
    }
    proof {
        assert(out@ =~= old(out)@ + event_json(*e));
    }
}

/// The encodings of a record's sub-events, one item per event.
pub open spec fn event_items<A: Architecture>(evs: Seq<Event<A>>) -> Seq<Seq<u8>> {
    evs.map_values(|e: Event<A>| event_json(e))
}

fn put_event_csv<A: Architecture>(out: &mut Vec<u8>, evs: &Vec<Event<A>>)
    ensures
        final(out)@ == old(out)@ + csv(event_items(evs@)),
{
    let mut idx: usize = 0;
    while idx < evs.len()
        invariant
            idx <= evs.len(),
            out@ == old(out)@ + csv(event_items(evs@.take(idx as int))),
        decreases evs.len() - idx,
    {
        if idx > 0 {
            out.push(COMMA);
        }
        put_event(out, &evs[idx]);
        proof {
            assert(event_items(evs@.take(idx as int + 1)) =~= event_items(
                evs@.take(idx as int),
            ).push(event_json(evs@[idx as int])));
            lemma_csv_push(event_items(evs@.take(idx as int)), event_json(evs@[idx as int]));
            assert(out@ =~= old(out)@ + csv(event_items(evs@.take(idx as int + 1))));
        }
        idx = idx + 1;
    }
    proof {
        assert(evs@.take(evs@.len() as int) =~= evs@);
    }
}

/// An optional branch kind: its name as a string, or `null`.
pub open spec fn kind_json(k: Option<JumpKind>) -> Seq<u8> {
    match k {
        None => lab_null(),
        Some(JumpKind::Call) => lab_k_call(),
        Some(JumpKind::Return) => lab_k_return(),
        Some(JumpKind::Unconditional) => lab_k_uncond(),
        Some(JumpKind::Conditional) => lab_k_cond(),
    }
}

fn put_kind(out: &mut Vec<u8>, k: &Option<JumpKind>)
    ensures
        final(out)@ == old(out)@ + kind_json(*k),
{
    match k {
        None => put_null(out),
        Some(JumpKind::Call) => put_k_call(out),
        Some(JumpKind::Return) => put_k_return(out),
        Some(JumpKind::Unconditional) => put_k_uncond(out),
        Some(JumpKind::Conditional) => put_k_cond(out),
    }
}

/// An optional size: a decimal number, or `null`.
pub open spec fn opt_u16_json(v: Option<u16>) -> Seq<u8> {
    match v {
        None => lab_null(),
        Some(n) => dec(n as nat),
    }
}

fn put_opt_u16(out: &mut Vec<u8>, v: &Option<u16>)
    ensures
        final(out)@ == old(out)@ + opt_u16_json(*v),
{
    match v {
        None => put_null(out),
        Some(n) => put_u64(out, *n as u64),
    }
}

/// One full instruction record: address, instruction payload, derived size
/// and branch kind, and the sub-events in receipt order.
pub open spec fn record_json<A: Architecture>(r: RecordModel<A>) -> Seq<u8> {
    lab_c_addr() + dec(r.addr.value_spec() as nat) + lab_c_insn() + csv(
        byte_items(r.insn.payload_spec()),
    ) + lab_c_size() + opt_u16_json(r.size) + lab_c_kind() + kind_json(r.kind) + lab_c_events()
        + csv(event_items(r.events)) + lab_close()
}

/// Appends one full instruction record to `out`.
pub fn put_record<A: Architecture>(out: &mut Vec<u8>, rec: &RecordInfo<A>)
    ensures
        final(out)@ == old(out)@ + record_json(rec@),
{
    put_c_addr(out);
    put_u64(out, rec.addr.value());
    put_c_insn(out);
    let payload = rec.insn.payload();
    put_byte_csv(out, &payload);
    put_c_size(out);
    put_opt_u16(out, &rec.size);
    put_c_kind(out);
    put_kind(out, &rec.kind);
    put_c_events(out);
    put_event_csv(out, &rec.events);
    put_close(out);
    proof {
        assert(out@ =~= old(out)@ + record_json(rec@));
    }
}

/// One register descriptor as an object.
pub open spec fn reg_info_json<R: RegisterInfo>(i: InfoModel<R>) -> Seq<u8> {
    lab_r_name() + esc(i.name) + lab_r_register() + dec(i.register.value_spec() as nat)
        + lab_r_base() + dec(i.base.value_spec() as nat) + lab_r_full() + (match i.full_register {
        Some(f) => dec(f.value_spec() as nat),
        None => lab_null(),
    }) + lab_r_size() + dec(i.size as nat) + seq![RBRACE]
}

fn put_reg_info<R: RegisterInfo>(out: &mut Vec<u8>, i: &Info<R>)
    ensures
        final(out)@ == old(out)@ + reg_info_json(i@),
{
    put_r_name(out);
    put_escaped(out, &i.name);
    put_r_register(out);
    put_u64(out, i.register.value());
    put_r_base(out);
    put_u64(out, i.base.value());
    put_r_full(out);
    match &i.full_register {
        Some(f) => put_u64(out, f.value()),
        None => put_null(out),
    }
    put_r_size(out);
    put_u64(out, i.size as u64);
    out.push(RBRACE);
    proof {
        assert(out@ =~= old(out)@ + reg_info_json(i@));
    }
}

/// The models of a table of register descriptors.
pub open spec fn info_views<R>(regs: Seq<Info<R>>) -> Seq<InfoModel<R>> {
    regs.map_values(|i: Info<R>| i@)
}

/// The encodings of a table of register descriptors, one item per register.
pub open spec fn reg_items<R: RegisterInfo>(regs: Seq<InfoModel<R>>) -> Seq<Seq<u8>> {
    regs.map_values(|i: InfoModel<R>| reg_info_json(i))
}

fn put_reg_csv<R: RegisterInfo>(out: &mut Vec<u8>, regs: &Vec<Info<R>>)
    ensures
        final(out)@ == old(out)@ + csv(reg_items(info_views(regs@))),
{
    let mut idx: usize = 0;
    while idx < regs.len()
        invariant
            idx <= regs.len(),
            out@ == old(out)@ + csv(reg_items(info_views(regs@.take(idx as int)))),
        decreases regs.len() - idx,
    {
        if idx > 0 {
            out.push(COMMA);
        }
        put_reg_info(out, &regs[idx]);
        proof {
            assert(info_views(regs@.take(idx as int + 1)) =~= info_views(
                regs@.take(idx as int),
            ).push(regs@[idx as int]@));
            assert(reg_items(info_views(regs@.take(idx as int + 1))) =~= reg_items(
                info_views(regs@.take(idx as int)),
            ).push(reg_info_json(regs@[idx as int]@)));
            lemma_csv_push(
                reg_items(info_views(regs@.take(idx as int))),
                reg_info_json(regs@[idx as int]@),
            );
            assert(out@ =~= old(out)@ + csv(reg_items(info_views(regs@.take(idx as int + 1)))));
        }
        idx = idx + 1;
    }
    proof {
        assert(regs@.take(regs@.len() as int) =~= regs@);
    }
}

/// One initial-memory pair as a two-element array.
pub open spec fn mem_pair_json(p: (u64, u64)) -> Seq<u8> {
    seq![LBRACK] + dec(p.0 as nat) + seq![COMMA] + dec(p.1 as nat) + seq![RBRACK]
}

/// The encodings of the initial-memory snapshot, one item per pair.
pub open spec fn mem_items(mem: Seq<(u64, u64)>) -> Seq<Seq<u8>> {
    mem.map_values(|p: (u64, u64)| mem_pair_json(p))
}

fn put_mem_csv(out: &mut Vec<u8>, mem: &Vec<(u64, u64)>)
    ensures
        final(out)@ == old(out)@ + csv(mem_items(mem@)),
{
    let mut idx: usize = 0;
    while idx < mem.len()
        invariant
            idx <= mem.len(),
            out@ == old(out)@ + csv(mem_items(mem@.take(idx as int))),
        decreases mem.len() - idx,
    {
        if idx > 0 {
            out.push(COMMA);
        }
        out.push(LBRACK);
        put_u64(out, mem[idx].0);
        out.push(COMMA);
        put_u64(out, mem[idx].1);
        out.push(RBRACK);
        proof {
            assert(mem_items(mem@.take(idx as int + 1)) =~= mem_items(mem@.take(idx as int)).push(
                mem_pair_json(mem@[idx as int]),
            ));
            lemma_csv_push(mem_items(mem@.take(idx as int)), mem_pair_json(mem@[idx as int]));
            assert(out@ =~= old(out)@ + csv(mem_items(mem@.take(idx as int + 1))));
        }
        idx = idx + 1;
    }
    proof {
        assert(mem@.take(mem@.len() as int) =~= mem@);
    }
}

/// The architecture header: address width, register table, and the initial
/// memory snapshot, followed by the opening of the record container.
pub open spec fn header_json<R: RegisterInfo>(
    width: u8,
    regs: Seq<InfoModel<R>>,
    mem: Seq<(u64, u64)>,
) -> Seq<u8> {
    lab_h_info() + dec(width as nat) + lab_h_regs() + csv(reg_items(regs)) + lab_h_mem() + csv(
        mem_items(mem),
    ) + lab_h_insns()
}

/// Appends the architecture header to `out`.
pub fn put_header<R: RegisterInfo>(
    out: &mut Vec<u8>,
    width: u8,
    regs: &Vec<Info<R>>,
    mem: &Vec<(u64, u64)>,
)
    ensures
        final(out)@ == old(out)@ + header_json(width, info_views(regs@), mem@),
{
    put_h_info(out);
    put_u64(out, width as u64);
    put_h_regs(out);
    put_reg_csv(out, regs);
    put_h_mem(out);
    put_mem_csv(out, mem);
    put_h_insns(out);
    proof {
        assert(out@ =~= old(out)@ + header_json(width, info_views(regs@), mem@));
    }
}

/// Appends the bytes that close the record container and the trace.
pub fn put_closing(out: &mut Vec<u8>)
    ensures
        final(out)@ == old(out)@ + lab_close(),
{
    put_close(out);
}

/// The encodings of a sequence of completed records, one item per record.
pub open spec fn record_items<A: Architecture>(rs: Seq<RecordModel<A>>) -> Seq<Seq<u8>> {
    rs.map_values(|r: RecordModel<A>| record_json(r))
}

/// The body of a trace: every completed record, in completion order.
pub open spec fn body_json<A: Architecture>(rs: Seq<RecordModel<A>>) -> Seq<u8> {
    csv(record_items(rs))
}

/// A whole trace file: header, body, and the closing of the container.
pub open spec fn trace_json<A: Architecture>(
    width: u8,
    regs: Seq<InfoModel<A::Register>>,
    mem: Seq<(u64, u64)>,
    rs: Seq<RecordModel<A>>,
) -> Seq<u8> {
    header_json(width, regs, mem) + body_json(rs) + lab_close()
}

} // verus!
