//! A reader for the architecture header, at the specification level: it
//! knows only the header schema, and recovers the address width, the
//! register table and the initial memory snapshot from the trace bytes.
//!
//! [`lemma_header_round_trip`] proves that the reader recovers, field for
//! field, exactly what the session wrote.
use vstd::prelude::*;

use crate::format::{
    csv, dec, digit_byte, esc, esc_byte, header_json, hex_digit, lab_h_info, lab_h_insns, lab_h_mem,
    lab_h_regs, lab_null, lab_r_base, lab_r_full, lab_r_name, lab_r_register, lab_r_size,
    mem_items, mem_pair_json, reg_info_json, reg_items, BACKSLASH, COMMA, LBRACK, QUOTE, RBRACE,
    RBRACK,
};
use crate::register::{InfoModel, RegisterInfo};

verus! {

/// A register descriptor as the reader recovers it: registers stand as
/// their numeric identities.
#[verifier::ext_equal]
pub struct RegFields {
    /// The displayed name, as bytes.
    pub name: Seq<u8>,
    /// The numeric identity of the register itself.
    pub register: nat,
    /// The numeric identity of the base register.
    pub base: nat,
    /// The numeric identity of the full register, if there is one.
    pub full_register: Option<nat>,
    /// The size in bytes of the register.
    pub size: nat,
}

/// A whole header as the reader recovers it, with the bytes that follow it.
#[verifier::ext_equal]
pub struct HeaderFields {
    /// The address width in bytes.
    pub width: nat,
    /// The register table, in table order.
    pub registers: Seq<RegFields>,
    /// The initial memory snapshot, in written order.
    pub memory: Seq<(nat, nat)>,
    /// The bytes that follow the header.
    pub rest: Seq<u8>,
}

/// The plain fields of a register descriptor model.
pub open spec fn fields_of<R: RegisterInfo>(i: InfoModel<R>) -> RegFields {
    RegFields {
        name: i.name,
        register: i.register.value_spec() as nat,
        base: i.base.value_spec() as nat,
        full_register: match i.full_register {
            Some(f) => Some(f.value_spec() as nat),
            None => None,
        },
        size: i.size as nat,
    }
}

/// The plain fields of a whole register table.
pub open spec fn fields_list<R: RegisterInfo>(regs: Seq<InfoModel<R>>) -> Seq<RegFields> {
    regs.map_values(|i: InfoModel<R>| fields_of(i))
}

/// The initial memory snapshot as plain numbers.
pub open spec fn mem_fields(mem: Seq<(u64, u64)>) -> Seq<(nat, nat)> {
    mem.map_values(|p: (u64, u64)| (p.0 as nat, p.1 as nat))
}

/// Whether the byte is an ASCII decimal digit.
pub open spec fn is_digit(b: u8) -> bool {
    0x30 <= b && b <= 0x39
}

/// The length of the longest digit prefix of `s`.
pub open spec fn digit_prefix_len(s: Seq<u8>) -> nat
    decreases s.len(),
{
    if s.len() == 0 {
        0
    } else if !is_digit(s[0]) {
        0
    } else {
        1 + digit_prefix_len(s.drop_first())
    }
}

/// The number that a digit string denotes, most significant digit first.
pub open spec fn dec_value(ds: Seq<u8>) -> nat
    decreases ds.len(),
{
    if ds.len() == 0 {
        0
    } else {
        dec_value(ds.drop_last()) * 10 + (if 0x30 <= ds.last() {
            (ds.last() - 0x30) as nat
        } else {
            0
        })
    }
}

/// Consumes an expected literal, or fails.
pub open spec fn parse_lit(s: Seq<u8>, lit: Seq<u8>) -> Option<Seq<u8>> {
    if lit.is_prefix_of(s) {
        Some(s.skip(lit.len() as int))
    } else {
        None
    }
}

/// Consumes a non-empty digit prefix and returns its value.
pub open spec fn parse_nat(s: Seq<u8>) -> Option<(nat, Seq<u8>)> {
    if digit_prefix_len(s) == 0 {
        None
    } else {
        Some(
            (
                dec_value(s.take(digit_prefix_len(s) as int)),
                s.skip(digit_prefix_len(s) as int),
            ),
        )
    }
}

/// The value of a lower-case hexadecimal digit byte.
pub open spec fn hex_value(b: u8) -> nat {
    if is_digit(b) {
        (b - 0x30) as nat
    } else if 0x61 <= b && b <= 0x66 {
        (b - 0x57) as nat
    } else {
        0
    }
}

/// Whether the byte is a lower-case hexadecimal digit.
pub open spec fn is_hex(b: u8) -> bool {
    is_digit(b) || (0x61 <= b && b <= 0x66)
}

/// Consumes an escaped string up to and including its closing quote, and
/// returns the unescaped bytes.
pub open spec fn parse_name(s: Seq<u8>) -> Option<(Seq<u8>, Seq<u8>)>
    decreases s.len(),
{
    if s.len() == 0 {
        None
    } else if s[0] == QUOTE {
        Some((Seq::empty(), s.drop_first()))
    } else if s[0] == BACKSLASH {
        if s.len() >= 2 && (s[1] == QUOTE || s[1] == BACKSLASH) {
            match parse_name(s.skip(2)) {
                Some((nm, r)) => Some((seq![s[1]] + nm, r)),
                None => None,
            }
        } else if s.len() >= 6 && s[1] == 0x75 && s[2] == 0x30 && s[3] == 0x30 && is_hex(s[4])
            && is_hex(s[5]) {
            match parse_name(s.skip(6)) {
                Some((nm, r)) => Some(
                    (seq![(hex_value(s[4]) * 16 + hex_value(s[5])) as u8] + nm, r),
                ),
                None => None,
            }
        } else {
            None
        }
    } else {
        match parse_name(s.drop_first()) {
            Some((nm, r)) => Some((seq![s[0]] + nm, r)),
            None => None,
        }
    }
}

/// Consumes either the literal `null` or a number.
pub open spec fn parse_opt_nat(s: Seq<u8>) -> Option<(Option<nat>, Seq<u8>)> {
    if lab_null().is_prefix_of(s) {
        Some((None, s.skip(4)))
    } else {
        match parse_nat(s) {
            Some((n, r)) => Some((Some(n), r)),
            None => None,
        }
    }
}

/// Consumes one register descriptor object.
pub open spec fn parse_reg(s: Seq<u8>) -> Option<(RegFields, Seq<u8>)> {
    match parse_lit(s, lab_r_name()) {
        None => None,
        Some(s1) => match parse_name(s1) {
            None => None,
            Some((nm, s2)) => match parse_lit(s2, lab_r_register().drop_first()) {
                None => None,
                Some(s3) => match parse_nat(s3) {
                    None => None,
                    Some((reg, s4)) => match parse_lit(s4, lab_r_base()) {
                        None => None,
                        Some(s5) => match parse_nat(s5) {
                            None => None,
                            Some((base, s6)) => match parse_lit(s6, lab_r_full()) {
                                None => None,
                                Some(s7) => match parse_opt_nat(s7) {
                                    None => None,
                                    Some((full, s8)) => match parse_lit(s8, lab_r_size()) {
                                        None => None,
                                        Some(s9) => match parse_nat(s9) {
                                            None => None,
                                            Some((size, s10)) => if s10.len() > 0 && s10[0]
                                                == RBRACE {
                                                Some(
                                                    (
                                                        RegFields {
                                                            name: nm,
                                                            register: reg,
                                                            base,
                                                            full_register: full,
                                                            size,
                                                        },
                                                        s10.drop_first(),
                                                    ),
                                                )
                                            } else {
                                                None
                                            },
                                        },
                                    },
                                },
                            },
                        },
                    },
                },
            },
        },
    }
}

/// Consumes `, <register>` items until something other than a comma follows.
pub open spec fn parse_regs_rest(s: Seq<u8>) -> Option<(Seq<RegFields>, Seq<u8>)>
    decreases s.len(),
{
    if s.len() > 0 && s[0] == COMMA {
        match parse_reg(s.drop_first()) {
            Some((f, r)) => if r.len() < s.len() {
                match parse_regs_rest(r) {
                    Some((fs, rr)) => Some((seq![f] + fs, rr)),
                    None => None,
                }
            } else {
                None
            },
            None => None,
        }
    } else {
        Some((Seq::empty(), s))
    }
}

/// Consumes a possibly empty register list, leaving its closing bracket.
pub open spec fn parse_regs(s: Seq<u8>) -> Option<(Seq<RegFields>, Seq<u8>)> {
    if s.len() > 0 && s[0] == RBRACK {
        Some((Seq::empty(), s))
    } else {
        match parse_reg(s) {
            Some((f, r)) => if r.len() < s.len() {
                match parse_regs_rest(r) {
                    Some((fs, rr)) => Some((seq![f] + fs, rr)),
                    None => None,
                }
            } else {
                None
            },
            None => None,
        }
    }
}

/// Consumes one initial-memory pair.
pub open spec fn parse_pair(s: Seq<u8>) -> Option<((nat, nat), Seq<u8>)> {
    if s.len() > 0 && s[0] == LBRACK {
        match parse_nat(s.drop_first()) {
            None => None,
            Some((a, s1)) => if s1.len() > 0 && s1[0] == COMMA {
                match parse_nat(s1.drop_first()) {
                    None => None,
                    Some((v, s2)) => if s2.len() > 0 && s2[0] == RBRACK {
                        Some(((a, v), s2.drop_first()))
                    } else {
                        None
                    },
                }
            } else {
                None
            },
        }
    } else {
        None
    }
}

/// Consumes `, <pair>` items until something other than a comma follows.
pub open spec fn parse_mems_rest(s: Seq<u8>) -> Option<(Seq<(nat, nat)>, Seq<u8>)>
    decreases s.len(),
{
    if s.len() > 0 && s[0] == COMMA {
        match parse_pair(s.drop_first()) {
            Some((p, r)) => if r.len() < s.len() {
                match parse_mems_rest(r) {
                    Some((ps, rr)) => Some((seq![p] + ps, rr)),
                    None => None,
                }
            } else {
                None
            },
            None => None,
        }
    } else {
        Some((Seq::empty(), s))
    }
}

/// Consumes a possibly empty initial-memory list, leaving its closing
/// bracket.
pub open spec fn parse_mems(s: Seq<u8>) -> Option<(Seq<(nat, nat)>, Seq<u8>)> {
    if s.len() > 0 && s[0] == RBRACK {
        Some((Seq::empty(), s))
    } else {
        match parse_pair(s) {
            Some((p, r)) => if r.len() < s.len() {
                match parse_mems_rest(r) {
                    Some((ps, rr)) => Some((seq![p] + ps, rr)),
                    None => None,
                }
            } else {
                None
            },
            None => None,
        }
    }
}

/// Reads a whole header, knowing only the header schema.
pub open spec fn parse_header(s: Seq<u8>) -> Option<HeaderFields> {
    match parse_lit(s, lab_h_info()) {
        None => None,
        Some(s1) => match parse_nat(s1) {
            None => None,
            Some((w, s2)) => match parse_lit(s2, lab_h_regs()) {
                None => None,
                Some(s3) => match parse_regs(s3) {
                    None => None,
                    Some((regs, s4)) => match parse_lit(s4, lab_h_mem()) {
                        None => None,
                        Some(s5) => match parse_mems(s5) {
                            None => None,
                            Some((mem, s6)) => match parse_lit(s6, lab_h_insns()) {
                                None => None,
                                Some(s7) => Some(
                                    HeaderFields {
                                        width: w,
                                        registers: regs,
                                        memory: mem,
                                        rest: s7,
                                    },
                                ),
                            },
                        },
                    },
                },
            },
        },
    }
}

/// Every byte of a decimal encoding is a digit, and there is at least one.
proof fn lemma_dec_digits(m: nat)
    ensures
        dec(m).len() >= 1,
        forall|k: int| 0 <= k < dec(m).len() ==> is_digit(#[trigger] dec(m)[k]),
    decreases m,
{
    if m < 10 {
    } else {
        lemma_dec_digits(m / 10);
    }
}

/// A run of digits followed by a non-digit is scanned to exactly its end.
proof fn lemma_digit_prefix(p: Seq<u8>, rest: Seq<u8>)
    requires
        forall|k: int| 0 <= k < p.len() ==> is_digit(#[trigger] p[k]),
        rest.len() == 0 || !is_digit(rest[0]),
    ensures
        digit_prefix_len(p + rest) == p.len(),
    decreases p.len(),
{
    if p.len() == 0 {
        assert(p + rest =~= rest);
    } else {
        assert((p + rest)[0] == p[0]);
        assert((p + rest).drop_first() =~= p.drop_first() + rest);
        lemma_digit_prefix(p.drop_first(), rest);
    }
}

/// Reading back a decimal encoding yields the encoded number.
proof fn lemma_dec_value(m: nat)
    ensures
        dec_value(dec(m)) == m,
    decreases m,
{
    if m < 10 {
        assert(dec(m) == seq![digit_byte(m)]);
        assert(dec(m).drop_last() =~= Seq::<u8>::empty());
        assert(dec(m).last() == digit_byte(m));
        assert(m % 10 == m);
        assert(digit_byte(m) == (0x30 + m) as u8);
        assert(0x30 <= dec(m).last());
        assert((dec(m).last() - 0x30) as nat == m);
        assert(dec_value(Seq::<u8>::empty()) == 0);
        assert(dec_value(dec(m)) == 0 * 10 + m);
    } else {
        lemma_dec_value(m / 10);
        assert(dec(m) == dec(m / 10).push(digit_byte(m % 10)));
        assert(dec(m).drop_last() =~= dec(m / 10));
        assert(dec(m).last() == digit_byte(m % 10));
        assert((m % 10) % 10 == m % 10);
        assert(digit_byte(m % 10) == (0x30 + m % 10) as u8);
        assert(0x30 <= dec(m).last());
        assert((dec(m).last() - 0x30) as nat == m % 10);
        assert(dec(m).len() != 0);
        assert(dec_value(dec(m)) == dec_value(dec(m).drop_last()) * 10 + m % 10);
        assert(dec_value(dec(m)) == (m / 10) * 10 + m % 10);
        assert(m == (m / 10) * 10 + m % 10) by (nonlinear_arith);
    }
}

/// A decimal number followed by a non-digit parses to exactly that number.
proof fn lemma_parse_nat(m: nat, rest: Seq<u8>)
    requires
        rest.len() == 0 || !is_digit(rest[0]),
    ensures
        parse_nat(dec(m) + rest) == Some((m, rest)),
{
    lemma_dec_digits(m);
    lemma_digit_prefix(dec(m), rest);
    lemma_dec_value(m);
    assert((dec(m) + rest).take(dec(m).len() as int) =~= dec(m));
    assert((dec(m) + rest).skip(dec(m).len() as int) =~= rest);
}

/// An expected literal in front parses away, leaving the rest.
proof fn lemma_parse_lit(lit: Seq<u8>, rest: Seq<u8>)
    ensures
        parse_lit(lit + rest, lit) == Some(rest),
{
    assert(lit.is_prefix_of(lit + rest)) by {
        assert((lit + rest).take(lit.len() as int) =~= lit);
    }
    assert((lit + rest).skip(lit.len() as int) =~= rest);
}

/// An escaped string with its closing quote parses back to the original
/// bytes.
proof fn lemma_parse_name(name: Seq<u8>, rest: Seq<u8>)
    ensures
        parse_name(esc(name) + seq![QUOTE] + rest) == Some((name, rest)),
    decreases name.len(),
{
    let s = esc(name) + seq![QUOTE] + rest;
    if name.len() == 0 {
        assert(s =~= seq![QUOTE] + rest);
        assert(s[0] == QUOTE);
        assert(s.drop_first() =~= rest);
    } else {
        let b = name[0];
        let nm = name.drop_first();
        assert(esc(name) == esc_byte(b) + esc(nm));
        lemma_parse_name(nm, rest);
        let s2 = esc(nm) + seq![QUOTE] + rest;
        if b == QUOTE || b == BACKSLASH {
            assert(s =~= seq![BACKSLASH, b] + s2);
            assert(s[0] == BACKSLASH);
            assert(s[1] == b);
            assert(s.len() >= 2);
            assert(s.skip(2) =~= s2);
            assert(seq![s[1]] + nm =~= name);
        } else if b < 0x20 {
            let h1 = hex_digit((b / 16) as nat);
            let h2 = hex_digit(b as nat);
            assert(s =~= seq![BACKSLASH, 0x75u8, 0x30u8, 0x30u8, h1, h2] + s2);
            assert(s[0] == BACKSLASH);
            assert(s[1] == 0x75);
            assert(s[2] == 0x30);
            assert(s[3] == 0x30);
            assert(s[4] == h1);
            assert(s[5] == h2);
            assert(s.len() >= 6);
            assert(is_hex(h1));
            assert(is_hex(h2));
            assert(hex_value(h1) == b / 16);
            assert(hex_value(h2) == b % 16);
            assert((hex_value(s[4]) * 16 + hex_value(s[5])) as u8 == b);
            assert(s.skip(6) =~= s2);
            assert(seq![(hex_value(s[4]) * 16 + hex_value(s[5])) as u8] + nm =~= name);
        } else {
            assert(s =~= seq![b] + s2);
            assert(s[0] == b);
            assert(s.drop_first() =~= s2);
            assert(seq![s[0]] + nm =~= name);
        }
    }
}

/// An optional number encoded as a number parses back to `Some` of it.
proof fn lemma_parse_opt_some(m: nat, rest: Seq<u8>)
    requires
        rest.len() == 0 || !is_digit(rest[0]),
    ensures
        parse_opt_nat(dec(m) + rest) == Some((Some(m), rest)),
{
    lemma_dec_digits(m);
    assert((dec(m) + rest)[0] == dec(m)[0]);
    assert(!lab_null().is_prefix_of(dec(m) + rest)) by {
        if lab_null().is_prefix_of(dec(m) + rest) {
            assert((dec(m) + rest).take(4)[0] == (dec(m) + rest)[0]);
            assert(lab_null()[0] == 0x6e);
        }
    }
    lemma_parse_nat(m, rest);
}

/// An optional number encoded as `null` parses back to `None`.
proof fn lemma_parse_opt_none(rest: Seq<u8>)
    ensures
        parse_opt_nat(lab_null() + rest) == Some((None::<nat>, rest)),
{
    assert(lab_null().is_prefix_of(lab_null() + rest)) by {
        assert((lab_null() + rest).take(4) =~= lab_null());
    }
    assert((lab_null() + rest).skip(4) =~= rest);
}

/// One encoded register descriptor parses back to its plain fields.
#[verifier::rlimit(100)]
proof fn lemma_parse_reg<R: RegisterInfo>(i: InfoModel<R>, rest: Seq<u8>)
    ensures
        parse_reg(reg_info_json(i) + rest) == Some((fields_of(i), rest)),
{
    let reg_v = dec(i.register.value_spec() as nat);
    let base_v = dec(i.base.value_spec() as nat);
    let full_v: Seq<u8> = match i.full_register {
        Some(f) => dec(f.value_spec() as nat),
        None => lab_null(),
    };
    let size_v = dec(i.size as nat);
    let tail9 = seq![RBRACE] + rest;
    let s9 = size_v + tail9;
    let s8 = lab_r_size() + s9;
    let s7 = full_v + s8;
    let s6 = lab_r_full() + s7;
    let s5 = base_v + s6;
    let s4 = lab_r_base() + s5;
    let s3 = reg_v + s4;
    let s2 = lab_r_register().drop_first() + s3;
    let s1 = esc(i.name) + seq![QUOTE] + s2;
    let j = reg_info_json(i) + rest;
    let l1 = lab_r_name() + esc(i.name);
    let l2 = l1 + lab_r_register();
    let l3 = l2 + reg_v;
    let l4 = l3 + lab_r_base();
    let l5 = l4 + base_v;
    let l6 = l5 + lab_r_full();
    let l7 = l6 + full_v;
    let l8 = l7 + lab_r_size();
    let l9 = l8 + size_v;
    assert(reg_info_json(i) == l9 + seq![RBRACE]);
    vstd::seq_lib::lemma_concat_associative(l9, seq![RBRACE], rest);
    vstd::seq_lib::lemma_concat_associative(l8, size_v, tail9);
    vstd::seq_lib::lemma_concat_associative(l7, lab_r_size(), s9);
    vstd::seq_lib::lemma_concat_associative(l6, full_v, s8);
    vstd::seq_lib::lemma_concat_associative(l5, lab_r_full(), s7);
    vstd::seq_lib::lemma_concat_associative(l4, base_v, s6);
    vstd::seq_lib::lemma_concat_associative(l3, lab_r_base(), s5);
    vstd::seq_lib::lemma_concat_associative(l2, reg_v, s4);
    vstd::seq_lib::lemma_concat_associative(l1, lab_r_register(), s3);
    assert(j == l1 + (lab_r_register() + s3));
    assert(lab_r_register() =~= seq![QUOTE] + lab_r_register().drop_first());
    vstd::seq_lib::lemma_concat_associative(seq![QUOTE], lab_r_register().drop_first(), s3);
    assert(lab_r_register() + s3 == seq![QUOTE] + s2);
    vstd::seq_lib::lemma_concat_associative(lab_r_name(), esc(i.name), seq![QUOTE] + s2);
    vstd::seq_lib::lemma_concat_associative(esc(i.name), seq![QUOTE], s2);
    assert(j == lab_r_name() + s1);
    lemma_parse_lit(lab_r_name(), s1);
    assert(parse_lit(j, lab_r_name()) == Some(s1));
    lemma_parse_name(i.name, s2);
    lemma_parse_lit(lab_r_register().drop_first(), s3);
    assert(s4[0] == lab_r_base()[0]);
    lemma_parse_nat(i.register.value_spec() as nat, s4);
    lemma_parse_lit(lab_r_base(), s5);
    assert(s6[0] == lab_r_full()[0]);
    lemma_parse_nat(i.base.value_spec() as nat, s6);
    lemma_parse_lit(lab_r_full(), s7);
    assert(s8[0] == lab_r_size()[0]);
    match i.full_register {
        Some(f) => {
            lemma_parse_opt_some(f.value_spec() as nat, s8);
        },
        None => {
            lemma_parse_opt_none(s8);
            assert(full_v + s8 =~= lab_null() + s8);
        },
    }
    lemma_parse_lit(lab_r_size(), s9);
    assert(tail9[0] == RBRACE);
    lemma_parse_nat(i.size as nat, tail9);
    assert(tail9.drop_first() =~= rest);
    assert(parse_reg(j) == Some((fields_of(i), rest))) by {
        assert((RegFields {
            name: i.name,
            register: i.register.value_spec() as nat,
            base: i.base.value_spec() as nat,
            full_register: match i.full_register {
                Some(f) => Some(f.value_spec() as nat),
                None => None,
            },
            size: i.size as nat,
        }) =~= fields_of(i));
    }
}

/// The items of a comma-separated list, each preceded by a comma.
pub open spec fn csv_tail(items: Seq<Seq<u8>>) -> Seq<u8>
    decreases items.len(),
{
    if items.len() == 0 {
        Seq::empty()
    } else {
        seq![COMMA] + items[0] + csv_tail(items.drop_first())
    }
}

/// A non-empty comma-separated list is its first item and the comma-preceded
/// rest.
proof fn lemma_csv_decomp(items: Seq<Seq<u8>>)
    ensures
        items.len() > 0 ==> csv(items) == items[0] + csv_tail(items.drop_first()),
    decreases items.len(),
{
    if items.len() == 0 {
    } else if items.len() == 1 {
        assert(csv_tail(items.drop_first()) =~= Seq::<u8>::empty());
        assert(items[0] + csv_tail(items.drop_first()) =~= items[0]);
    } else {
        lemma_csv_decomp(items.drop_first());
        assert(items[0] + seq![COMMA] + csv(items.drop_first()) =~= items[0] + csv_tail(
            items.drop_first(),
        ));
    }
}

/// A comma-preceded run of encoded registers parses back to their fields.
#[verifier::rlimit(100)]
proof fn lemma_parse_regs_rest<R: RegisterInfo>(regs: Seq<InfoModel<R>>, rest: Seq<u8>)
    requires
        rest.len() > 0,
        rest[0] == RBRACK,
    ensures
        parse_regs_rest(csv_tail(reg_items(regs)) + rest) == Some((fields_list(regs), rest)),
    decreases regs.len(),
{
    let s = csv_tail(reg_items(regs)) + rest;
    if regs.len() == 0 {
        assert(csv_tail(reg_items(regs)) =~= Seq::<u8>::empty());
        assert(s =~= rest);
        assert(fields_list(regs) =~= Seq::<RegFields>::empty());
    } else {
        let item0 = reg_info_json(regs[0]);
        let tail = csv_tail(reg_items(regs.drop_first())) + rest;
        assert(reg_items(regs)[0] == item0);
        assert(reg_items(regs).drop_first() =~= reg_items(regs.drop_first()));
        assert(s =~= seq![COMMA] + (item0 + tail));
        assert(s[0] == COMMA);
        assert(s.drop_first() =~= item0 + tail);
        lemma_parse_reg(regs[0], tail);
        assert(item0.len() >= 9) by {
            assert(item0 =~= lab_r_name() + (esc(regs[0].name) + lab_r_register() + dec(
                regs[0].register.value_spec() as nat,
            ) + lab_r_base() + dec(regs[0].base.value_spec() as nat) + lab_r_full() + (
            match regs[0].full_register {
                Some(f) => dec(f.value_spec() as nat),
                None => lab_null(),
            }) + lab_r_size() + dec(regs[0].size as nat) + seq![RBRACE]));
        }
        lemma_parse_regs_rest(regs.drop_first(), rest);
        assert(seq![fields_of(regs[0])] + fields_list(regs.drop_first()) =~= fields_list(regs));
    }
}

/// An encoded register table parses back to its fields, up to the closing
/// bracket.
#[verifier::rlimit(100)]
proof fn lemma_parse_regs<R: RegisterInfo>(regs: Seq<InfoModel<R>>, rest: Seq<u8>)
    requires
        rest.len() > 0,
        rest[0] == RBRACK,
    ensures
        parse_regs(csv(reg_items(regs)) + rest) == Some((fields_list(regs), rest)),
{
    let s = csv(reg_items(regs)) + rest;
    if regs.len() == 0 {
        assert(csv(reg_items(regs)) =~= Seq::<u8>::empty());
        assert(s =~= rest);
        assert(fields_list(regs) =~= Seq::<RegFields>::empty());
    } else {
        let item0 = reg_info_json(regs[0]);
        let tail = csv_tail(reg_items(regs.drop_first())) + rest;
        lemma_csv_decomp(reg_items(regs));
        assert(reg_items(regs)[0] == item0);
        assert(reg_items(regs).drop_first() =~= reg_items(regs.drop_first()));
        assert(s =~= item0 + tail);
        assert(item0[0] == lab_r_name()[0]) by {
            assert(item0 =~= lab_r_name() + (esc(regs[0].name) + lab_r_register() + dec(
                regs[0].register.value_spec() as nat,
            ) + lab_r_base() + dec(regs[0].base.value_spec() as nat) + lab_r_full() + (
            match regs[0].full_register {
                Some(f) => dec(f.value_spec() as nat),
                None => lab_null(),
            }) + lab_r_size() + dec(regs[0].size as nat) + seq![RBRACE]));
        }
        assert(s[0] == item0[0]);
        lemma_parse_reg(regs[0], tail);
        lemma_parse_regs_rest(regs.drop_first(), rest);
        assert(seq![fields_of(regs[0])] + fields_list(regs.drop_first()) =~= fields_list(regs));
    }
}

/// One encoded initial-memory pair parses back to its numbers.
proof fn lemma_parse_pair(p: (u64, u64), rest: Seq<u8>)
    ensures
        parse_pair(mem_pair_json(p) + rest) == Some(((p.0 as nat, p.1 as nat), rest)),
{
    let s = mem_pair_json(p) + rest;
    let t2 = seq![RBRACK] + rest;
    let t1 = dec(p.1 as nat) + t2;
    let t0 = seq![COMMA] + t1;
    assert(s =~= seq![LBRACK] + (dec(p.0 as nat) + t0));
    assert(s[0] == LBRACK);
    assert(s.drop_first() =~= dec(p.0 as nat) + t0);
    assert(t0[0] == COMMA);
    lemma_parse_nat(p.0 as nat, t0);
    assert(t0.drop_first() =~= t1);
    assert(t2[0] == RBRACK);
    lemma_parse_nat(p.1 as nat, t2);
    assert(t2.drop_first() =~= rest);
}

/// A comma-preceded run of encoded pairs parses back to their numbers.
proof fn lemma_parse_mems_rest(mem: Seq<(u64, u64)>, rest: Seq<u8>)
    requires
        rest.len() > 0,
        rest[0] == RBRACK,
    ensures
        parse_mems_rest(csv_tail(mem_items(mem)) + rest) == Some((mem_fields(mem), rest)),
    decreases mem.len(),
{
    let s = csv_tail(mem_items(mem)) + rest;
    if mem.len() == 0 {
        assert(csv_tail(mem_items(mem)) =~= Seq::<u8>::empty());
        assert(s =~= rest);
        assert(mem_fields(mem) =~= Seq::<(nat, nat)>::empty());
    } else {
        let item0 = mem_pair_json(mem[0]);
        let tail = csv_tail(mem_items(mem.drop_first())) + rest;
        assert(mem_items(mem)[0] == item0);
        assert(mem_items(mem).drop_first() =~= mem_items(mem.drop_first()));
        assert(s =~= seq![COMMA] + (item0 + tail));
        assert(s[0] == COMMA);
        assert(s.drop_first() =~= item0 + tail);
        lemma_parse_pair(mem[0], tail);
        assert(item0.len() >= 1) by {
            assert(item0 =~= seq![LBRACK] + (dec(mem[0].0 as nat) + seq![COMMA] + dec(
                mem[0].1 as nat,
            ) + seq![RBRACK]));
        }
        lemma_parse_mems_rest(mem.drop_first(), rest);
        assert(seq![(mem[0].0 as nat, mem[0].1 as nat)] + mem_fields(mem.drop_first())
            =~= mem_fields(mem));
    }
}

/// An encoded initial-memory snapshot parses back to its numbers, up to the
/// closing bracket.
proof fn lemma_parse_mems(mem: Seq<(u64, u64)>, rest: Seq<u8>)
    requires
        rest.len() > 0,
        rest[0] == RBRACK,
    ensures
        parse_mems(csv(mem_items(mem)) + rest) == Some((mem_fields(mem), rest)),
{
    let s = csv(mem_items(mem)) + rest;
    if mem.len() == 0 {
        assert(csv(mem_items(mem)) =~= Seq::<u8>::empty());
        assert(s =~= rest);
        assert(mem_fields(mem) =~= Seq::<(nat, nat)>::empty());
    } else {
        let item0 = mem_pair_json(mem[0]);
        let tail = csv_tail(mem_items(mem.drop_first())) + rest;
        lemma_csv_decomp(mem_items(mem));
        assert(mem_items(mem)[0] == item0);
        assert(mem_items(mem).drop_first() =~= mem_items(mem.drop_first()));
        assert(s =~= item0 + tail);
        assert(item0[0] == LBRACK) by {
            assert(item0 =~= seq![LBRACK] + (dec(mem[0].0 as nat) + seq![COMMA] + dec(
                mem[0].1 as nat,
            ) + seq![RBRACK]));
        }
        assert(s[0] == item0[0]);
        lemma_parse_pair(mem[0], tail);
        lemma_parse_mems_rest(mem.drop_first(), rest);
        assert(seq![(mem[0].0 as nat, mem[0].1 as nat)] + mem_fields(mem.drop_first())
            =~= mem_fields(mem));
    }
}

/// Header round-trip: a reader that knows only the header schema recovers
/// from the written bytes the address width, the register table and the
/// initial memory snapshot, field for field, whatever bytes follow the
/// header.
#[verifier::rlimit(100)]
pub proof fn lemma_header_round_trip<R: RegisterInfo>(
    width: u8,
    regs: Seq<InfoModel<R>>,
    mem: Seq<(u64, u64)>,
    rest: Seq<u8>,
)
    ensures
        parse_header(header_json(width, regs, mem) + rest) == Some(HeaderFields {
            width: width as nat,
            registers: fields_list(regs),
            memory: mem_fields(mem),
            rest,
        }),
{
    let s7 = lab_h_insns() + rest;
    let s6 = csv(mem_items(mem)) + s7;
    let s5 = lab_h_mem() + s6;
    let s4 = csv(reg_items(regs)) + s5;
    let s3 = lab_h_regs() + s4;
    let s2 = dec(width as nat) + s3;
    let s = header_json(width, regs, mem) + rest;
    assert(s =~= lab_h_info() + s2);
    lemma_parse_lit(lab_h_info(), s2);
    assert(s3[0] == lab_h_regs()[0]);
    lemma_parse_nat(width as nat, s3);
    lemma_parse_lit(lab_h_regs(), s4);
    assert(s5.len() > 0 && s5[0] == RBRACK) by {
        assert(s5[0] == lab_h_mem()[0]);
    }
    lemma_parse_regs(regs, s5);
    lemma_parse_lit(lab_h_mem(), s6);
    assert(s7.len() > 0 && s7[0] == RBRACK) by {
        assert(s7[0] == lab_h_insns()[0]);
    }
    lemma_parse_mems(mem, s7);
    lemma_parse_lit(lab_h_insns(), rest);
}

} // verus!
