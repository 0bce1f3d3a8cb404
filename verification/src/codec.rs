//! Text codec for persisted lifecycle snapshots. `encode_state` prints
//! a `TicketState` into a compact string; `decode_state` parses one
//! back. Both sides are specified exactly, and
//! `lemma_codec_round_trip` proves that decoding an encoded state
//! yields the identical state — the durability layer can never hand
//! back a corrupted value unnoticed. Inputs that are no encoding decode
//! to `None` (a deserialization failure), never to a wrong state.

use vstd::prelude::*;
use crate::state_machine::{
    DetectionSignal,
    FailureReason,
    PaymentMethod,
    PriceTier,
    SignalSource,
    TicketDetail,
    TicketState,
    TicketType,
};

verus! {

/// The decimal digit character for `d` (meaningful for `d < 10`).
pub open spec fn digit_char(d: nat) -> char {
    if d == 0 {
        '0'
    } else if d == 1 {
        '1'
    } else if d == 2 {
        '2'
    } else if d == 3 {
        '3'
    } else if d == 4 {
        '4'
    } else if d == 5 {
        '5'
    } else if d == 6 {
        '6'
    } else if d == 7 {
        '7'
    } else if d == 8 {
        '8'
    } else {
        '9'
    }
}

/// The value of a decimal digit character; 10 marks a non-digit.
pub open spec fn digit_val(c: char) -> nat {
    if c == '0' {
        0
    } else if c == '1' {
        1
    } else if c == '2' {
        2
    } else if c == '3' {
        3
    } else if c == '4' {
        4
    } else if c == '5' {
        5
    } else if c == '6' {
        6
    } else if c == '7' {
        7
    } else if c == '8' {
        8
    } else if c == '9' {
        9
    } else {
        10
    }
}

/// Whether `c` is a decimal digit.
pub open spec fn is_digit(c: char) -> bool {
    digit_val(c) < 10
}

/// The decimal digits of `n`, most significant first.
pub open spec fn dec_digits(n: nat) -> Seq<char>
    decreases n,
{
    if n < 10 {
        seq![digit_char(n)]
    } else {
        dec_digits(n / 10).push(digit_char(n % 10))
    }
}

/// Scan a digit run from `pos`, folding into `acc`; stops at the first
/// non-digit or at the end, returning the value and the stop position.
pub open spec fn parse_num(s: Seq<char>, pos: int, acc: nat) -> (nat, int)
    decreases s.len() - pos,
{
    if 0 <= pos < s.len() && is_digit(s[pos]) {
        parse_num(s, pos + 1, acc * 10 + digit_val(s[pos]))
    } else {
        (acc, pos)
    }
}

/// The value of a pure digit sequence folded onto `acc`.
pub open spec fn seg_val(ds: Seq<char>, acc: nat) -> nat
    decreases ds.len(),
{
    if ds.len() == 0 {
        acc
    } else {
        seg_val(ds.drop_last(), acc) * 10 + digit_val(ds.last())
    }
}

/// Every character `dec_digits` prints is a digit of the right value.
proof fn lemma_dec_digits_are_digits(n: nat)
    ensures
        dec_digits(n).len() >= 1,
        forall|i: int| 0 <= i < dec_digits(n).len() ==> is_digit(#[trigger] dec_digits(n)[i]),
    decreases n,
{
    if n < 10 {
    } else {
        lemma_dec_digits_are_digits(n / 10);
    }
}

/// Folding from a prepended digit equals starting from a larger
/// accumulator.
proof fn lemma_seg_val_cons(c: char, rest: Seq<char>, acc: nat)
    ensures
        seg_val(seq![c] + rest, acc) == seg_val(rest, acc * 10 + digit_val(c)),
    decreases rest.len(),
{
    if rest.len() == 0 {
        assert((seq![c] + rest).drop_last() =~= Seq::<char>::empty());
        assert((seq![c] + rest).last() == c);
        assert(seg_val(Seq::<char>::empty(), acc) == acc);
        assert(seg_val(seq![c] + rest, acc) == acc * 10 + digit_val(c));
        assert(seg_val(rest, acc * 10 + digit_val(c)) == acc * 10 + digit_val(c));
    } else {
        assert((seq![c] + rest).drop_last() =~= seq![c] + rest.drop_last());
        assert((seq![c] + rest).last() == rest.last());
        lemma_seg_val_cons(c, rest.drop_last(), acc);
        assert(seg_val(seq![c] + rest, acc) == seg_val(seq![c] + rest.drop_last(), acc) * 10
            + digit_val(rest.last()));
        assert(seg_val(rest, acc * 10 + digit_val(c)) == seg_val(
            rest.drop_last(),
            acc * 10 + digit_val(c),
        ) * 10 + digit_val(rest.last()));
    }
}

/// Scanning a digit segment embedded in `s` folds exactly that
/// segment.
proof fn lemma_parse_num_scan(s: Seq<char>, pos: int, ds: Seq<char>, acc: nat)
    requires
        0 <= pos,
        pos + ds.len() <= s.len(),
        s.subrange(pos, pos + ds.len()) == ds,
        forall|i: int| 0 <= i < ds.len() ==> is_digit(#[trigger] ds[i]),
        pos + ds.len() == s.len() || !is_digit(s[pos + ds.len()]),
    ensures
        parse_num(s, pos, acc) == ((seg_val(ds, acc), pos + ds.len())),
    decreases ds.len(),
{
    if ds.len() == 0 {
    } else {
        assert(s[pos] == ds[0]);
        assert(is_digit(ds[0]));
        let rest = ds.drop_first();
        assert(ds =~= seq![ds[0]] + rest);
        assert(s.subrange(pos + 1, pos + 1 + rest.len()) =~= rest);
        lemma_parse_num_scan(s, pos + 1, rest, acc * 10 + digit_val(ds[0]));
        lemma_seg_val_cons(ds[0], rest, acc);
    }
}

/// The printed digits of `n` fold back to `n`.
proof fn lemma_seg_val_digits(n: nat)
    ensures
        seg_val(dec_digits(n), 0) == n,
    decreases n,
{
    if n < 10 {
        assert(dec_digits(n) == seq![digit_char(n)]);
        assert(dec_digits(n).drop_last() =~= Seq::<char>::empty());
        assert(seg_val(Seq::<char>::empty(), 0) == 0);
        assert(dec_digits(n).last() == digit_char(n));
        assert(digit_val(digit_char(n)) == n);
    } else {
        lemma_seg_val_digits(n / 10);
        assert(dec_digits(n).drop_last() =~= dec_digits(n / 10));
        assert(dec_digits(n).last() == digit_char(n % 10));
        assert(digit_val(digit_char(n % 10)) == n % 10);
        assert(seg_val(dec_digits(n), 0) == seg_val(dec_digits(n / 10), 0) * 10 + (n % 10));
    }
}

/// Parsing inverts printing for numbers: a printed number embedded at
/// `pos`, delimited by a non-digit or the end, scans back to itself.
pub proof fn lemma_num_round_trip(s: Seq<char>, pos: int, n: nat)
    requires
        0 <= pos,
        pos + dec_digits(n).len() <= s.len(),
        s.subrange(pos, pos + dec_digits(n).len()) == dec_digits(n),
        pos + dec_digits(n).len() == s.len() || !is_digit(s[pos + dec_digits(n).len()]),
    ensures
        parse_num(s, pos, 0) == ((n, pos + dec_digits(n).len())),
{
    lemma_dec_digits_are_digits(n);
    lemma_parse_num_scan(s, pos, dec_digits(n), 0);
    lemma_seg_val_digits(n);
}

/// The folded value grows with the accumulator, so a scan that would
/// overflow a machine word can be detected early.
proof fn lemma_parse_num_mono(s: Seq<char>, pos: int, acc: nat)
    ensures
        parse_num(s, pos, acc).0 >= acc,
    decreases s.len() - pos,
{
    if 0 <= pos < s.len() && is_digit(s[pos]) {
        lemma_parse_num_mono(s, pos + 1, acc * 10 + digit_val(s[pos]));
    }
}

/// Relies on `str::chars` and `Iterator::count`: the number of
/// characters in the string, which is the length of its view.
#[verifier::external_body]
fn char_count(s: &str) -> (r: usize)
    ensures
        r == s@.len(),
{
    s.chars().count()
}

/// The value of a digit character, with 10 marking a non-digit.
fn digit_of(c: char) -> (d: u8)
    ensures
        d == digit_val(c),
{
    match c {
        '0' => 0,
        '1' => 1,
        '2' => 2,
        '3' => 3,
        '4' => 4,
        '5' => 5,
        '6' => 6,
        '7' => 7,
        '8' => 8,
        '9' => 9,
        _ => 10,
    }
}

/// Append the decimal digits of `n`.
fn enc_u64(out: &mut String, n: u64)
    ensures
        final(out)@ == old(out)@ + dec_digits(n as nat),
    decreases n,
{
    let table = "0123456789";
    proof {
        reveal_strlit("0123456789");
    }
    if n >= 10 {
        enc_u64(out, n / 10);
    }
    let d = (n % 10) as usize;
    let ds = table.substring_char(d, d + 1);
    proof {
        assert(table@[d as int] == digit_char((n % 10) as nat));
        assert(ds@ =~= seq![digit_char((n % 10) as nat)]);
        if n < 10 {
            assert(dec_digits(n as nat) =~= seq![digit_char(n as nat)]);
        }
    }
    out.append(ds);
    proof {
        if n >= 10 {
            assert(final(out)@ =~= old(out)@ + dec_digits(n as nat));
        } else {
            assert(final(out)@ =~= old(out)@ + dec_digits(n as nat));
        }
    }
}

/// Scan a digit run from `pos`. Returns the value and the stop
/// position; a value beyond `u64` range is a failure.
fn scan_u64(s: &str, n_chars: usize, pos: usize) -> (r: Option<(u64, usize)>)
    requires
        n_chars == s@.len(),
        pos <= n_chars,
    ensures
        parse_num(s@, pos as int, 0).0 <= u64::MAX ==> (r matches Some(p) && p.0 == parse_num(
            s@,
            pos as int,
            0,
        ).0 && p.1 == parse_num(s@, pos as int, 0).1),
        parse_num(s@, pos as int, 0).0 > u64::MAX ==> r is None,
{
    let mut acc: u64 = 0;
    let mut i: usize = pos;
    while i < n_chars && digit_of(s.get_char(i)) < 10
        invariant
            pos <= i <= n_chars,
            n_chars == s@.len(),
            parse_num(s@, pos as int, 0) == parse_num(s@, i as int, acc as nat),
        decreases n_chars - i,
    {
        let d = digit_of(s.get_char(i));
        if acc > (u64::MAX - (d as u64)) / 10 {
            proof {
                lemma_parse_num_mono(s@, i as int + 1, (acc as nat) * 10 + digit_val(s@[i as int]));
                assert((acc as nat) * 10 + (d as nat) > u64::MAX) by (nonlinear_arith)
                    requires
                        acc as nat > (u64::MAX - (d as nat)) / 10,
                        d < 10,
                ;
            }
            return None;
        }
        proof {
            assert((acc as nat) * 10 + (d as nat) <= u64::MAX) by (nonlinear_arith)
                requires
                    acc as nat <= (u64::MAX - (d as nat)) / 10,
                    d < 10,
            ;
        }
        acc = acc * 10 + (d as u64);
        i = i + 1;
    }
    Some((acc, i))
}


/// A number field: digits and a closing `;`.
pub open spec fn enc_nat_field(n: nat) -> Seq<char> {
    dec_digits(n) + seq![';']
}

/// A signed number field: optional `-`, digits, closing `;`.
pub open spec fn enc_int_field(v: int) -> Seq<char> {
    if v >= 0 {
        enc_nat_field(v as nat)
    } else {
        seq!['-'] + enc_nat_field((-v) as nat)
    }
}

/// A string field: its length in characters, `:`, the characters.
pub open spec fn enc_str_field(f: Seq<char>) -> Seq<char> {
    dec_digits(f.len()) + seq![':'] + f
}

/// A boolean field: `t` or `f`.
pub open spec fn enc_bool(b: bool) -> Seq<char> {
    if b {
        seq!['t']
    } else {
        seq!['f']
    }
}

/// An optional string field: `s` and the field, or `n`.
pub open spec fn enc_opt_str(o: Option<Seq<char>>) -> Seq<char> {
    match o {
        Some(f) => seq!['s'] + enc_str_field(f),
        None => seq!['n'],
    }
}

/// Parse a number field: at least one digit, then `;`.
pub open spec fn p_nat(s: Seq<char>, pos: int) -> Option<(nat, int)> {
    let (v, e) = parse_num(s, pos, 0);
    if e > pos && e < s.len() && s[e] == ';' {
        Some((v, e + 1))
    } else {
        None
    }
}

/// Parse a number field whose value fits `u64`.
pub open spec fn p_u64(s: Seq<char>, pos: int) -> Option<(u64, int)> {
    match p_nat(s, pos) {
        Some((v, e)) => if v <= u64::MAX {
            Some((v as u64, e))
        } else {
            None
        },
        None => None,
    }
}

/// Parse a number field whose value fits `u32`.
pub open spec fn p_u32(s: Seq<char>, pos: int) -> Option<(u32, int)> {
    match p_nat(s, pos) {
        Some((v, e)) => if v <= u32::MAX {
            Some((v as u32, e))
        } else {
            None
        },
        None => None,
    }
}

/// Parse a signed number field whose value fits `i64`.
pub open spec fn p_i64(s: Seq<char>, pos: int) -> Option<(i64, int)> {
    if 0 <= pos < s.len() && s[pos] == '-' {
        match p_nat(s, pos + 1) {
            Some((m, e)) => if m <= 0x8000000000000000 {
                Some(((-(m as int)) as i64, e))
            } else {
                None
            },
            None => None,
        }
    } else {
        match p_nat(s, pos) {
            Some((m, e)) => if m <= i64::MAX {
                Some((m as i64, e))
            } else {
                None
            },
            None => None,
        }
    }
}

/// Parse a string field.
pub open spec fn p_str(s: Seq<char>, pos: int) -> Option<(Seq<char>, int)> {
    let (len, e) = parse_num(s, pos, 0);
    if e > pos && e < s.len() && s[e] == ':' && e + 1 + len <= s.len() {
        Some((s.subrange(e + 1, e + 1 + len), e + 1 + len))
    } else {
        None
    }
}

/// Parse a boolean field.
pub open spec fn p_bool(s: Seq<char>, pos: int) -> Option<(bool, int)> {
    if 0 <= pos < s.len() && s[pos] == 't' {
        Some((true, pos + 1))
    } else if 0 <= pos < s.len() && s[pos] == 'f' {
        Some((false, pos + 1))
    } else {
        None
    }
}

/// Parse an optional string field.
pub open spec fn p_opt_str(s: Seq<char>, pos: int) -> Option<(Option<Seq<char>>, int)> {
    if 0 <= pos < s.len() && s[pos] == 's' {
        match p_str(s, pos + 1) {
            Some((f, e)) => Some((Some(f), e)),
            None => None,
        }
    } else if 0 <= pos < s.len() && s[pos] == 'n' {
        Some((None, pos + 1))
    } else {
        None
    }
}


/// Pointwise view of an embedded segment.
proof fn lemma_embed_index(s: Seq<char>, pos: int, seg: Seq<char>)
    requires
        0 <= pos,
        pos + seg.len() <= s.len(),
        s.subrange(pos, pos + seg.len()) == seg,
    ensures
        forall|i: int| 0 <= i < seg.len() ==> s[pos + i] == #[trigger] seg[i],
{
    assert forall|i: int| 0 <= i < seg.len() implies s[pos + i] == #[trigger] seg[i] by {
        assert(seg[i] == s.subrange(pos, pos + seg.len())[i]);
    }
}

/// A sub-piece of an embedded segment is embedded at its offset.
proof fn lemma_embed_sub(s: Seq<char>, pos: int, seg: Seq<char>, lo: int, hi: int)
    requires
        0 <= pos,
        pos + seg.len() <= s.len(),
        s.subrange(pos, pos + seg.len()) == seg,
        0 <= lo <= hi <= seg.len(),
    ensures
        s.subrange(pos + lo, pos + hi) == seg.subrange(lo, hi),
{
    lemma_embed_index(s, pos, seg);
    assert(s.subrange(pos + lo, pos + hi) =~= seg.subrange(lo, hi));
}

/// A number field embedded at `pos` parses back to its value.
pub proof fn lemma_nat_field_rt(s: Seq<char>, pos: int, n: nat)
    requires
        0 <= pos,
        pos + enc_nat_field(n).len() <= s.len(),
        s.subrange(pos, pos + enc_nat_field(n).len()) == enc_nat_field(n),
    ensures
        p_nat(s, pos) == Some((n, pos + enc_nat_field(n).len())),
{
    let enc = enc_nat_field(n);
    let d = dec_digits(n);
    lemma_dec_digits_are_digits(n);
    lemma_embed_index(s, pos, enc);
    lemma_embed_sub(s, pos, enc, 0, d.len() as int);
    assert(enc.subrange(0, d.len() as int) =~= d);
    assert(enc[d.len() as int] == ';');
    assert(s[pos + d.len()] == ';');
    lemma_num_round_trip(s, pos, n);
}

/// A signed number field embedded at `pos` parses back to its value.
pub proof fn lemma_i64_field_rt(s: Seq<char>, pos: int, v: i64)
    requires
        0 <= pos,
        pos + enc_int_field(v as int).len() <= s.len(),
        s.subrange(pos, pos + enc_int_field(v as int).len()) == enc_int_field(v as int),
    ensures
        p_i64(s, pos) == Some((v, pos + enc_int_field(v as int).len())),
{
    if v >= 0 {
        lemma_nat_field_rt(s, pos, v as nat);
        lemma_dec_digits_are_digits(v as nat);
        lemma_embed_index(s, pos, enc_nat_field(v as nat));
        assert(enc_nat_field(v as nat)[0] == dec_digits(v as nat)[0]);
        assert(s[pos] == dec_digits(v as nat)[0]);
        assert(is_digit(s[pos]));
        assert(s[pos] != '-');
    } else {
        let m = (-(v as int)) as nat;
        let enc = enc_int_field(v as int);
        lemma_embed_index(s, pos, enc);
        assert(enc[0] == '-');
        assert(s[pos] == '-');
        lemma_embed_sub(s, pos, enc, 1, enc.len() as int);
        assert(enc.subrange(1, enc.len() as int) =~= enc_nat_field(m));
        lemma_nat_field_rt(s, pos + 1, m);
        assert(m <= 0x8000000000000000);
    }
}

/// A string field embedded at `pos` parses back to its contents.
pub proof fn lemma_str_field_rt(s: Seq<char>, pos: int, f: Seq<char>)
    requires
        0 <= pos,
        pos + enc_str_field(f).len() <= s.len(),
        s.subrange(pos, pos + enc_str_field(f).len()) == enc_str_field(f),
    ensures
        p_str(s, pos) == Some((f, pos + enc_str_field(f).len())),
{
    let enc = enc_str_field(f);
    let d = dec_digits(f.len());
    lemma_dec_digits_are_digits(f.len());
    lemma_embed_index(s, pos, enc);
    lemma_embed_sub(s, pos, enc, 0, d.len() as int);
    assert(enc.subrange(0, d.len() as int) =~= d);
    assert(enc[d.len() as int] == ':');
    assert(s[pos + d.len()] == ':');
    lemma_num_round_trip(s, pos, f.len());
    lemma_embed_sub(s, pos, enc, d.len() + 1 as int, enc.len() as int);
    assert(enc.subrange(d.len() + 1 as int, enc.len() as int) =~= f);
}

/// A boolean field embedded at `pos` parses back to its value.
pub proof fn lemma_bool_rt(s: Seq<char>, pos: int, b: bool)
    requires
        0 <= pos,
        pos + 1 <= s.len(),
        s.subrange(pos, pos + 1) == enc_bool(b),
    ensures
        p_bool(s, pos) == Some((b, pos + 1)),
{
    lemma_embed_index(s, pos, enc_bool(b));
    assert(s[pos] == enc_bool(b)[0]);
}

/// An optional string field embedded at `pos` parses back to its
/// value.
pub proof fn lemma_opt_str_rt(s: Seq<char>, pos: int, o: Option<Seq<char>>)
    requires
        0 <= pos,
        pos + enc_opt_str(o).len() <= s.len(),
        s.subrange(pos, pos + enc_opt_str(o).len()) == enc_opt_str(o),
    ensures
        p_opt_str(s, pos) == Some((o, pos + enc_opt_str(o).len())),
{
    let enc = enc_opt_str(o);
    lemma_embed_index(s, pos, enc);
    match o {
        Some(f) => {
            assert(enc[0] == 's');
            assert(s[pos] == 's');
            lemma_embed_sub(s, pos, enc, 1, enc.len() as int);
            assert(enc.subrange(1, enc.len() as int) =~= enc_str_field(f));
            lemma_str_field_rt(s, pos + 1, f);
        },
        None => {
            assert(enc[0] == 'n');
            assert(s[pos] == 'n');
        },
    }
}

/// Append a number field.
fn put_u64(out: &mut String, n: u64)
    ensures
        final(out)@ == old(out)@ + enc_nat_field(n as nat),
{
    enc_u64(out, n);
    out.append(";");
    proof {
        reveal_strlit(";");
        assert(final(out)@ =~= old(out)@ + enc_nat_field(n as nat));
    }
}

/// Append a signed number field.
fn put_i64(out: &mut String, v: i64)
    ensures
        final(out)@ == old(out)@ + enc_int_field(v as int),
{
    if v >= 0 {
        put_u64(out, v as u64);
    } else {
        out.append("-");
        let mag: u64 = ((-(v + 1)) as u64) + 1;
        put_u64(out, mag);
        proof {
            reveal_strlit("-");
            assert(mag as nat == (-(v as int)) as nat);
            assert(final(out)@ =~= old(out)@ + enc_int_field(v as int));
        }
    }
}

/// Append a string field.
fn put_str(out: &mut String, f: &String)
    ensures
        final(out)@ == old(out)@ + enc_str_field(f@),
{
    let len = char_count(f.as_str());
    enc_u64(out, len as u64);
    out.append(":");
    out.append(f.as_str());
    proof {
        reveal_strlit(":");
        assert(final(out)@ =~= old(out)@ + enc_str_field(f@));
    }
}

/// Append a boolean field.
fn put_bool(out: &mut String, b: bool)
    ensures
        final(out)@ == old(out)@ + enc_bool(b),
{
    if b {
        out.append("t");
        proof {
            reveal_strlit("t");
            assert(final(out)@ =~= old(out)@ + enc_bool(b));
        }
    } else {
        out.append("f");
        proof {
            reveal_strlit("f");
            assert(final(out)@ =~= old(out)@ + enc_bool(b));
        }
    }
}

/// Append an optional string field.
fn put_opt_str(out: &mut String, o: &Option<String>)
    ensures
        final(out)@ == old(out)@ + enc_opt_str(match *o {
            Some(f) => Some(f@),
            None => None,
        }),
{
    match o {
        Some(f) => {
            out.append("s");
            proof {
                reveal_strlit("s");
            }
            put_str(out, f);
            proof {
                assert(final(out)@ =~= old(out)@ + enc_opt_str(Some(f@)));
            }
        },
        None => {
            out.append("n");
            proof {
                reveal_strlit("n");
                assert(final(out)@ =~= old(out)@ + enc_opt_str(None::<Seq<char>>));
            }
        },
    }
}

/// Scan a number field.
fn take_u64(s: &str, n_chars: usize, pos: usize) -> (r: Option<(u64, usize)>)
    requires
        n_chars == s@.len(),
        pos <= n_chars,
    ensures
        r matches Some(q) ==> q.1 <= n_chars,
        p_u64(s@, pos as int) matches Some(p) ==> (r matches Some(q) && q.0 == p.0 && q.1 == p.1),
        p_u64(s@, pos as int) is None ==> r is None,
{
    match scan_u64(s, n_chars, pos) {
        Some((v, e)) => {
            if e > pos && e < n_chars && s.get_char(e) == ';' {
                Some((v, e + 1))
            } else {
                None
            }
        },
        None => {
            proof {
                lemma_parse_num_mono(s@, pos as int, 0);
            }
            None
        },
    }
}

/// Scan a number field that must fit `u32`.
fn take_u32(s: &str, n_chars: usize, pos: usize) -> (r: Option<(u32, usize)>)
    requires
        n_chars == s@.len(),
        pos <= n_chars,
    ensures
        r matches Some(q) ==> q.1 <= n_chars,
        p_u32(s@, pos as int) matches Some(p) ==> (r matches Some(q) && q.0 == p.0 && q.1 == p.1),
        p_u32(s@, pos as int) is None ==> r is None,
{
    match take_u64(s, n_chars, pos) {
        Some((v, e)) => {
            if v <= u32::MAX as u64 {
                Some((v as u32, e))
            } else {
                None
            }
        },
        None => None,
    }
}

/// Scan a signed number field that must fit `i64`.
fn take_i64(s: &str, n_chars: usize, pos: usize) -> (r: Option<(i64, usize)>)
    requires
        n_chars == s@.len(),
        pos <= n_chars,
    ensures
        r matches Some(q) ==> q.1 <= n_chars,
        p_i64(s@, pos as int) matches Some(p) ==> (r matches Some(q) && q.0 == p.0 && q.1 == p.1),
        p_i64(s@, pos as int) is None ==> r is None,
{
    if pos < n_chars && s.get_char(pos) == '-' {
        match take_u64(s, n_chars, pos + 1) {
            Some((m, e)) => {
                if m <= i64::MAX as u64 {
                    Some((-(m as i64), e))
                } else if m == (i64::MAX as u64) + 1 {
                    Some((i64::MIN, e))
                } else {
                    proof {
                        assert(p_i64(s@, pos as int) is None);
                    }
                    None
                }
            },
            None => None,
        }
    } else {
        match take_u64(s, n_chars, pos) {
            Some((m, e)) => {
                if m <= i64::MAX as u64 {
                    Some((m as i64, e))
                } else {
                    None
                }
            },
            None => None,
        }
    }
}

/// Scan a string field.
fn take_str(s: &str, n_chars: usize, pos: usize) -> (r: Option<(String, usize)>)
    requires
        n_chars == s@.len(),
        pos <= n_chars,
    ensures
        r matches Some(q) ==> q.1 <= n_chars,
        p_str(s@, pos as int) matches Some(p) ==> (r matches Some(q) && q.0@ == p.0 && q.1 == p.1),
        p_str(s@, pos as int) is None ==> r is None,
{
    match scan_u64(s, n_chars, pos) {
        Some((len64, e)) => {
            if e > pos && e < n_chars && s.get_char(e) == ':' && len64 <= (n_chars - e - 1) as u64 {
                let len = len64 as usize;
                let field = s.substring_char(e + 1, e + 1 + len).to_owned();
                Some((field, e + 1 + len))
            } else {
                None
            }
        },
        None => {
            proof {
                lemma_parse_num_mono(s@, pos as int, 0);
                if p_str(s@, pos as int) matches Some(p) {
                    let (len, e) = parse_num(s@, pos as int, 0);
                    assert(e + 1 + len <= s@.len());
                    assert(len > u64::MAX);
                }
            }
            None
        },
    }
}

/// Scan a boolean field.
fn take_bool(s: &str, n_chars: usize, pos: usize) -> (r: Option<(bool, usize)>)
    requires
        n_chars == s@.len(),
        pos <= n_chars,
    ensures
        r matches Some(q) ==> q.1 <= n_chars,
        p_bool(s@, pos as int) matches Some(p) ==> (r matches Some(q) && q.0 == p.0 && q.1 == p.1),
        p_bool(s@, pos as int) is None ==> r is None,
{
    if pos < n_chars {
        let c = s.get_char(pos);
        if c == 't' {
            Some((true, pos + 1))
        } else if c == 'f' {
            Some((false, pos + 1))
        } else {
            None
        }
    } else {
        None
    }
}

/// Scan an optional string field.
fn take_opt_str(s: &str, n_chars: usize, pos: usize) -> (r: Option<(Option<String>, usize)>)
    requires
        n_chars == s@.len(),
        pos <= n_chars,
    ensures
        r matches Some(q) ==> q.1 <= n_chars,
        p_opt_str(s@, pos as int) matches Some(p) ==> (r matches Some(q) && q.1 == p.1 && (match (
            q.0,
            p.0,
        ) {
            (Some(a), Some(b)) => a@ == b,
            (None, None) => true,
            _ => false,
        })),
        p_opt_str(s@, pos as int) is None ==> r is None,
{
    if pos < n_chars {
        let c = s.get_char(pos);
        if c == 's' {
            match take_str(s, n_chars, pos + 1) {
                Some((f, e)) => Some((Some(f), e)),
                None => None,
            }
        } else if c == 'n' {
            Some((None, pos + 1))
        } else {
            None
        }
    } else {
        None
    }
}


/// Ghost mirror of a detection signal, with the metadata blob as a
/// character sequence.
pub struct SignalView {
    pub source: SignalSource,
    pub confidence: u32,
    pub timestamp_ms: i64,
    pub metadata: Option<Seq<char>>,
}

/// Ghost mirror of a payment method.
pub enum MethodView {
    UniCreditCard,
    PayPal,
    BankTransfer,
    VirtualCard(Seq<char>),
}

/// Ghost mirror of one ticket line.
pub struct TicketView {
    pub ticket_id: Seq<char>,
    pub visitor_name: Seq<char>,
    pub date: Seq<char>,
    pub time_slot: Seq<char>,
    pub ticket_type: TicketType,
    pub price_tier: PriceTier,
}

/// Ghost mirror of a lifecycle state: every string replaced by its
/// character sequence. Two states with the same view hold identical
/// data field for field.
pub enum StateView {
    Monitoring {
        started_at: i64,
        last_check: i64,
        check_count: u64,
        target_date: Seq<char>,
        ticket_type: TicketType,
    },
    Detected {
        detected_at: i64,
        confidence: u32,
        signals: Seq<SignalView>,
        target_date: Seq<char>,
        ticket_type: TicketType,
    },
    Carting {
        started_at: i64,
        session_id: Seq<char>,
        cart_id: Option<Seq<char>>,
        target_date: Seq<char>,
        ticket_type: TicketType,
    },
    Holding {
        cart_id: Seq<char>,
        expires_at: i64,
        heartbeat_due: i64,
        target_date: Seq<char>,
        ticket_type: TicketType,
    },
    Paying {
        started_at: i64,
        payment_token: Seq<char>,
        method: MethodView,
        cart_id: Seq<char>,
    },
    Confirmed { confirmed_at: i64, confirmation_code: Seq<char>, tickets: Seq<TicketView> },
    Failed { failed_at: i64, reason: FailureReason, retry_eligible: bool },
}

/// The view of an optional string.
pub open spec fn opt_view(o: Option<String>) -> Option<Seq<char>> {
    match o {
        Some(m) => Some(m@),
        None => None,
    }
}

/// The view of a detection signal.
pub open spec fn signal_view(g: DetectionSignal) -> SignalView {
    SignalView {
        source: g.source,
        confidence: g.confidence,
        timestamp_ms: g.timestamp_ms,
        metadata: opt_view(g.metadata),
    }
}

/// The view of a payment method.
pub open spec fn method_view(m: PaymentMethod) -> MethodView {
    match m {
        PaymentMethod::UniCreditCard => MethodView::UniCreditCard,
        PaymentMethod::PayPal => MethodView::PayPal,
        PaymentMethod::BankTransfer => MethodView::BankTransfer,
        PaymentMethod::VirtualCard { provider } => MethodView::VirtualCard(provider@),
    }
}

/// The view of one ticket line.
pub open spec fn ticket_view(t: TicketDetail) -> TicketView {
    TicketView {
        ticket_id: t.ticket_id@,
        visitor_name: t.visitor_name@,
        date: t.date@,
        time_slot: t.time_slot@,
        ticket_type: t.ticket_type,
        price_tier: t.price_tier,
    }
}

/// The view of a whole lifecycle state.
pub open spec fn state_view(st: TicketState) -> StateView {
    match st {
        TicketState::Monitoring { started_at, last_check, check_count, target_date, ticket_type } => {
            StateView::Monitoring {
                started_at,
                last_check,
                check_count,
                target_date: target_date@,
                ticket_type,
            }
        },
        TicketState::Detected { detected_at, confidence, signals, target_date, ticket_type } => {
            StateView::Detected {
                detected_at,
                confidence,
                signals: signals@.map_values(|g: DetectionSignal| signal_view(g)),
                target_date: target_date@,
                ticket_type,
            }
        },
        TicketState::Carting { started_at, session_id, cart_id, target_date, ticket_type } => {
            StateView::Carting {
                started_at,
                session_id: session_id@,
                cart_id: opt_view(cart_id),
                target_date: target_date@,
                ticket_type,
            }
        },
        TicketState::Holding { cart_id, expires_at, heartbeat_due, target_date, ticket_type } => {
            StateView::Holding {
                cart_id: cart_id@,
                expires_at,
                heartbeat_due,
                target_date: target_date@,
                ticket_type,
            }
        },
        TicketState::Paying { started_at, payment_token, method, cart_id } => {
            StateView::Paying {
                started_at,
                payment_token: payment_token@,
                method: method_view(method),
                cart_id: cart_id@,
            }
        },
        TicketState::Confirmed { confirmed_at, confirmation_code, tickets } => {
            StateView::Confirmed {
                confirmed_at,
                confirmation_code: confirmation_code@,
                tickets: tickets@.map_values(|t: TicketDetail| ticket_view(t)),
            }
        },
        TicketState::Failed { failed_at, reason, retry_eligible } => {
            StateView::Failed { failed_at, reason, retry_eligible }
        },
    }
}

/// Encodable views: list lengths fit the 64-bit count field. Every
/// view of a real state satisfies this, since a vector is never longer
/// than the address space.
pub open spec fn view_wf(sv: StateView) -> bool {
    match sv {
        StateView::Detected { signals, .. } => signals.len() <= u64::MAX,
        StateView::Confirmed { tickets, .. } => tickets.len() <= u64::MAX,
        _ => true,
    }
}

/// Tag character of a ticket type.
pub open spec fn tt_char(t: TicketType) -> char {
    match t {
        TicketType::Ordinario => 'o',
        TicketType::FullExperienceArena => 'a',
        TicketType::FullExperienceUnderground => 'u',
        TicketType::ForumPassSuper => 'f',
    }
}

/// Tag character of a signal source.
pub open spec fn source_char(x: SignalSource) -> char {
    match x {
        SignalSource::ApiResponse => 'a',
        SignalSource::DomMutation => 'd',
        SignalSource::VisualConfirmation => 'v',
        SignalSource::TimingAnalysis => 't',
        SignalSource::CrossSession => 'c',
    }
}

/// Tag character of a price tier.
pub open spec fn tier_char(x: PriceTier) -> char {
    match x {
        PriceTier::Intero => 'i',
        PriceTier::Ridotto => 'r',
        PriceTier::Gratuito => 'g',
    }
}

/// Tag character of a failure reason.
pub open spec fn reason_char(x: FailureReason) -> char {
    match x {
        FailureReason::CartHoldExpired => 'c',
        FailureReason::PaymentDeclined => 'p',
        FailureReason::SessionInvalid => 's',
        FailureReason::QueueItDetected => 'q',
        FailureReason::RateLimited => 'r',
        FailureReason::NetworkError => 'n',
        FailureReason::ValidationFailed => 'v',
        FailureReason::InventoryGone => 'i',
        FailureReason::Timeout => 't',
    }
}

/// A payment method: a tag, plus the provider for virtual cards.
pub open spec fn enc_method(m: MethodView) -> Seq<char> {
    match m {
        MethodView::UniCreditCard => seq!['u'],
        MethodView::PayPal => seq!['p'],
        MethodView::BankTransfer => seq!['b'],
        MethodView::VirtualCard(provider) => seq!['v'] + enc_str_field(provider),
    }
}

/// One detection signal.
pub open spec fn enc_signal(g: SignalView) -> Seq<char> {
    seq![source_char(g.source)] + enc_nat_field(g.confidence as nat) + enc_int_field(
        g.timestamp_ms as int,
    ) + enc_opt_str(g.metadata)
}

/// A signal list, in order.
pub open spec fn enc_signals(gs: Seq<SignalView>) -> Seq<char>
    decreases gs.len(),
{
    if gs.len() == 0 {
        Seq::empty()
    } else {
        enc_signal(gs[0]) + enc_signals(gs.drop_first())
    }
}

/// One ticket line.
pub open spec fn enc_ticket(t: TicketView) -> Seq<char> {
    enc_str_field(t.ticket_id) + enc_str_field(t.visitor_name) + enc_str_field(t.date)
        + enc_str_field(t.time_slot) + seq![tt_char(t.ticket_type)] + seq![tier_char(t.price_tier)]
}

/// A ticket list, in order.
pub open spec fn enc_tickets(ts: Seq<TicketView>) -> Seq<char>
    decreases ts.len(),
{
    if ts.len() == 0 {
        Seq::empty()
    } else {
        enc_ticket(ts[0]) + enc_tickets(ts.drop_first())
    }
}

/// The printed form of a lifecycle state: a variant tag, then its
/// fields in order; lists carry their length first.
pub open spec fn enc_state(sv: StateView) -> Seq<char> {
    match sv {
        StateView::Monitoring { started_at, last_check, check_count, target_date, ticket_type } => {
            seq!['M'] + enc_int_field(started_at as int) + enc_int_field(last_check as int)
                + enc_nat_field(check_count as nat) + enc_str_field(target_date) + seq![
                tt_char(ticket_type),
            ]
        },
        StateView::Detected { detected_at, confidence, signals, target_date, ticket_type } => {
            seq!['D'] + enc_int_field(detected_at as int) + enc_nat_field(confidence as nat)
                + enc_nat_field(signals.len()) + enc_signals(signals) + enc_str_field(target_date)
                + seq![tt_char(ticket_type)]
        },
        StateView::Carting { started_at, session_id, cart_id, target_date, ticket_type } => {
            seq!['C'] + enc_int_field(started_at as int) + enc_str_field(session_id) + enc_opt_str(
                cart_id,
            ) + enc_str_field(target_date) + seq![tt_char(ticket_type)]
        },
        StateView::Holding { cart_id, expires_at, heartbeat_due, target_date, ticket_type } => {
            seq!['H'] + enc_str_field(cart_id) + enc_int_field(expires_at as int) + enc_int_field(
                heartbeat_due as int,
            ) + enc_str_field(target_date) + seq![tt_char(ticket_type)]
        },
        StateView::Paying { started_at, payment_token, method, cart_id } => {
            seq!['P'] + enc_int_field(started_at as int) + enc_str_field(payment_token)
                + enc_method(method) + enc_str_field(cart_id)
        },
        StateView::Confirmed { confirmed_at, confirmation_code, tickets } => {
            seq!['K'] + enc_int_field(confirmed_at as int) + enc_str_field(confirmation_code)
                + enc_nat_field(tickets.len()) + enc_tickets(tickets)
        },
        StateView::Failed { failed_at, reason, retry_eligible } => {
            seq!['X'] + enc_int_field(failed_at as int) + seq![reason_char(reason)] + enc_bool(
                retry_eligible,
            )
        },
    }
}


/// Parse a ticket-type tag.
pub open spec fn p_tt(s: Seq<char>, pos: int) -> Option<(TicketType, int)> {
    if 0 <= pos < s.len() {
        if s[pos] == 'o' {
            Some((TicketType::Ordinario, pos + 1))
        } else if s[pos] == 'a' {
            Some((TicketType::FullExperienceArena, pos + 1))
        } else if s[pos] == 'u' {
            Some((TicketType::FullExperienceUnderground, pos + 1))
        } else if s[pos] == 'f' {
            Some((TicketType::ForumPassSuper, pos + 1))
        } else {
            None
        }
    } else {
        None
    }
}

/// Parse a signal-source tag.
pub open spec fn p_source(s: Seq<char>, pos: int) -> Option<(SignalSource, int)> {
    if 0 <= pos < s.len() {
        if s[pos] == 'a' {
            Some((SignalSource::ApiResponse, pos + 1))
        } else if s[pos] == 'd' {
            Some((SignalSource::DomMutation, pos + 1))
        } else if s[pos] == 'v' {
            Some((SignalSource::VisualConfirmation, pos + 1))
        } else if s[pos] == 't' {
            Some((SignalSource::TimingAnalysis, pos + 1))
        } else if s[pos] == 'c' {
            Some((SignalSource::CrossSession, pos + 1))
        } else {
            None
        }
    } else {
        None
    }
}

/// Parse a price-tier tag.
pub open spec fn p_tier(s: Seq<char>, pos: int) -> Option<(PriceTier, int)> {
    if 0 <= pos < s.len() {
        if s[pos] == 'i' {
            Some((PriceTier::Intero, pos + 1))
        } else if s[pos] == 'r' {
            Some((PriceTier::Ridotto, pos + 1))
        } else if s[pos] == 'g' {
            Some((PriceTier::Gratuito, pos + 1))
        } else {
            None
        }
    } else {
        None
    }
}

/// Parse a failure-reason tag.
pub open spec fn p_reason(s: Seq<char>, pos: int) -> Option<(FailureReason, int)> {
    if 0 <= pos < s.len() {
        if s[pos] == 'c' {
            Some((FailureReason::CartHoldExpired, pos + 1))
        } else if s[pos] == 'p' {
            Some((FailureReason::PaymentDeclined, pos + 1))
        } else if s[pos] == 's' {
            Some((FailureReason::SessionInvalid, pos + 1))
        } else if s[pos] == 'q' {
            Some((FailureReason::QueueItDetected, pos + 1))
        } else if s[pos] == 'r' {
            Some((FailureReason::RateLimited, pos + 1))
        } else if s[pos] == 'n' {
            Some((FailureReason::NetworkError, pos + 1))
        } else if s[pos] == 'v' {
            Some((FailureReason::ValidationFailed, pos + 1))
        } else if s[pos] == 'i' {
            Some((FailureReason::InventoryGone, pos + 1))
        } else if s[pos] == 't' {
            Some((FailureReason::Timeout, pos + 1))
        } else {
            None
        }
    } else {
        None
    }
}

/// Parse a payment method.
pub open spec fn p_method(s: Seq<char>, pos: int) -> Option<(MethodView, int)> {
    if 0 <= pos < s.len() {
        if s[pos] == 'u' {
            Some((MethodView::UniCreditCard, pos + 1))
        } else if s[pos] == 'p' {
            Some((MethodView::PayPal, pos + 1))
        } else if s[pos] == 'b' {
            Some((MethodView::BankTransfer, pos + 1))
        } else if s[pos] == 'v' {
            match p_str(s, pos + 1) {
                Some((provider, e)) => Some((MethodView::VirtualCard(provider), e)),
                None => None,
            }
        } else {
            None
        }
    } else {
        None
    }
}

/// Parse one detection signal.
pub open spec fn p_signal(s: Seq<char>, pos: int) -> Option<(SignalView, int)> {
    match p_source(s, pos) {
        Some((source, e1)) => match p_u32(s, e1) {
            Some((confidence, e2)) => match p_i64(s, e2) {
                Some((timestamp_ms, e3)) => match p_opt_str(s, e3) {
                    Some((metadata, e4)) => Some(
                        (SignalView { source, confidence, timestamp_ms, metadata }, e4),
                    ),
                    None => None,
                },
                None => None,
            },
            None => None,
        },
        None => None,
    }
}

/// Parse `k` detection signals in sequence.
pub open spec fn p_signals(s: Seq<char>, pos: int, k: nat) -> Option<(Seq<SignalView>, int)>
    decreases k,
{
    if k == 0 {
        Some((Seq::empty(), pos))
    } else {
        match p_signal(s, pos) {
            Some((g, e)) => match p_signals(s, e, (k - 1) as nat) {
                Some((rest, e2)) => Some((seq![g] + rest, e2)),
                None => None,
            },
            None => None,
        }
    }
}

/// Parse one ticket line.
pub open spec fn p_ticket(s: Seq<char>, pos: int) -> Option<(TicketView, int)> {
    match p_str(s, pos) {
        Some((ticket_id, e1)) => match p_str(s, e1) {
            Some((visitor_name, e2)) => match p_str(s, e2) {
                Some((date, e3)) => match p_str(s, e3) {
                    Some((time_slot, e4)) => match p_tt(s, e4) {
                        Some((ticket_type, e5)) => match p_tier(s, e5) {
                            Some((price_tier, e6)) => Some(
                                (
                                    TicketView {
                                        ticket_id,
                                        visitor_name,
                                        date,
                                        time_slot,
                                        ticket_type,
                                        price_tier,
                                    },
                                    e6,
                                ),
                            ),
                            None => None,
                        },
                        None => None,
                    },
                    None => None,
                },
                None => None,
            },
            None => None,
        },
        None => None,
    }
}

/// Parse `k` ticket lines in sequence.
pub open spec fn p_tickets(s: Seq<char>, pos: int, k: nat) -> Option<(Seq<TicketView>, int)>
    decreases k,
{
    if k == 0 {
        Some((Seq::empty(), pos))
    } else {
        match p_ticket(s, pos) {
            Some((t, e)) => match p_tickets(s, e, (k - 1) as nat) {
                Some((rest, e2)) => Some((seq![t] + rest, e2)),
                None => None,
            },
            None => None,
        }
    }
}



/// Split an embedded two-piece concatenation.
proof fn lemma_cat2(s: Seq<char>, pos: int, a: Seq<char>, b: Seq<char>)
    requires
        0 <= pos,
        pos + (a + b).len() <= s.len(),
        s.subrange(pos, pos + (a + b).len()) == a + b,
    ensures
        s.subrange(pos, pos + a.len()) == a,
        s.subrange(pos + a.len(), pos + a.len() + b.len()) == b,
{
    lemma_embed_index(s, pos, a + b);
    assert forall|k: int| 0 <= k < a.len() implies s[pos + k] == #[trigger] a[k] by {
        assert((a + b)[k] == a[k]);
        assert(s[pos + k] == (a + b)[k]);
    }
    assert forall|k: int| 0 <= k < b.len() implies s[pos + a.len() + k] == #[trigger] b[k] by {
        assert((a + b)[a.len() + k] == b[k]);
        assert(s[pos + (a.len() + k)] == (a + b)[a.len() + k]);
    }
    assert(s.subrange(pos, pos + a.len()) =~= a);
    assert(s.subrange(pos + a.len(), pos + a.len() + b.len()) =~= b);
}

/// Split an embedded four-piece concatenation.
proof fn lemma_cat4(s: Seq<char>, pos: int, a: Seq<char>, b: Seq<char>, c: Seq<char>, d: Seq<char>)
    requires
        0 <= pos,
        pos + (a + b + c + d).len() <= s.len(),
        s.subrange(pos, pos + (a + b + c + d).len()) == a + b + c + d,
    ensures
        s.subrange(pos, pos + a.len()) == a,
        s.subrange(pos + a.len(), pos + a.len() + b.len()) == b,
        s.subrange(pos + a.len() + b.len(), pos + a.len() + b.len() + c.len()) == c,
        s.subrange(
            pos + a.len() + b.len() + c.len(),
            pos + a.len() + b.len() + c.len() + d.len(),
        ) == d,
{
    lemma_cat2(s, pos, a + b + c, d);
    lemma_cat2(s, pos, a + b, c);
    lemma_cat2(s, pos, a, b);
}

/// Split an embedded five-piece concatenation.
proof fn lemma_cat5(
    s: Seq<char>,
    pos: int,
    a: Seq<char>,
    b: Seq<char>,
    c: Seq<char>,
    d: Seq<char>,
    e: Seq<char>,
)
    requires
        0 <= pos,
        pos + (a + b + c + d + e).len() <= s.len(),
        s.subrange(pos, pos + (a + b + c + d + e).len()) == a + b + c + d + e,
    ensures
        s.subrange(pos, pos + a.len()) == a,
        s.subrange(pos + a.len(), pos + a.len() + b.len()) == b,
        s.subrange(pos + a.len() + b.len(), pos + a.len() + b.len() + c.len()) == c,
        s.subrange(
            pos + a.len() + b.len() + c.len(),
            pos + a.len() + b.len() + c.len() + d.len(),
        ) == d,
        s.subrange(
            pos + a.len() + b.len() + c.len() + d.len(),
            pos + a.len() + b.len() + c.len() + d.len() + e.len(),
        ) == e,
{
    lemma_cat2(s, pos, a + b + c + d, e);
    lemma_cat4(s, pos, a, b, c, d);
}

/// Split an embedded six-piece concatenation.
proof fn lemma_cat6(
    s: Seq<char>,
    pos: int,
    a: Seq<char>,
    b: Seq<char>,
    c: Seq<char>,
    d: Seq<char>,
    e: Seq<char>,
    f: Seq<char>,
)
    requires
        0 <= pos,
        pos + (a + b + c + d + e + f).len() <= s.len(),
        s.subrange(pos, pos + (a + b + c + d + e + f).len()) == a + b + c + d + e + f,
    ensures
        s.subrange(pos, pos + a.len()) == a,
        s.subrange(pos + a.len(), pos + a.len() + b.len()) == b,
        s.subrange(pos + a.len() + b.len(), pos + a.len() + b.len() + c.len()) == c,
        s.subrange(
            pos + a.len() + b.len() + c.len(),
            pos + a.len() + b.len() + c.len() + d.len(),
        ) == d,
        s.subrange(
            pos + a.len() + b.len() + c.len() + d.len(),
            pos + a.len() + b.len() + c.len() + d.len() + e.len(),
        ) == e,
        s.subrange(
            pos + a.len() + b.len() + c.len() + d.len() + e.len(),
            pos + a.len() + b.len() + c.len() + d.len() + e.len() + f.len(),
        ) == f,
{
    lemma_cat2(s, pos, a + b + c + d + e, f);
    lemma_cat5(s, pos, a, b, c, d, e);
}

/// Split an embedded seven-piece concatenation.
proof fn lemma_cat7(
    s: Seq<char>,
    pos: int,
    a: Seq<char>,
    b: Seq<char>,
    c: Seq<char>,
    d: Seq<char>,
    e: Seq<char>,
    f: Seq<char>,
    g: Seq<char>,
)
    requires
        0 <= pos,
        pos + (a + b + c + d + e + f + g).len() <= s.len(),
        s.subrange(pos, pos + (a + b + c + d + e + f + g).len()) == a + b + c + d + e + f + g,
    ensures
        s.subrange(pos, pos + a.len()) == a,
        s.subrange(pos + a.len(), pos + a.len() + b.len()) == b,
        s.subrange(pos + a.len() + b.len(), pos + a.len() + b.len() + c.len()) == c,
        s.subrange(
            pos + a.len() + b.len() + c.len(),
            pos + a.len() + b.len() + c.len() + d.len(),
        ) == d,
        s.subrange(
            pos + a.len() + b.len() + c.len() + d.len(),
            pos + a.len() + b.len() + c.len() + d.len() + e.len(),
        ) == e,
        s.subrange(
            pos + a.len() + b.len() + c.len() + d.len() + e.len(),
            pos + a.len() + b.len() + c.len() + d.len() + e.len() + f.len(),
        ) == f,
        s.subrange(
            pos + a.len() + b.len() + c.len() + d.len() + e.len() + f.len(),
            pos + a.len() + b.len() + c.len() + d.len() + e.len() + f.len() + g.len(),
        ) == g,
{
    lemma_cat2(s, pos, a + b + c + d + e + f, g);
    lemma_cat6(s, pos, a, b, c, d, e, f);
}

/// Decode the field part of one variant.
pub open spec fn de_monitoring_s(s: Seq<char>) -> Option<StateView> {
    match p_i64(s, 1) {
        Some((started_at, e1)) => match p_i64(s, e1) {
            Some((last_check, e2)) => match p_u64(s, e2) {
                Some((check_count, e3)) => match p_str(s, e3) {
                    Some((target_date, e4)) => match p_tt(s, e4) {
                        Some((ticket_type, e5)) => if e5 == s.len() {
                            Some(
                                StateView::Monitoring {
                                    started_at,
                                    last_check,
                                    check_count,
                                    target_date,
                                    ticket_type,
                                },
                            )
                        } else {
                            None
                        },
                        None => None,
                    },
                    None => None,
                },
                None => None,
            },
            None => None,
        },
        None => None,
    }
    }

/// Decode the field part of one variant.
pub open spec fn de_detected_s(s: Seq<char>) -> Option<StateView> {
    match p_i64(s, 1) {
        Some((detected_at, e1)) => match p_u32(s, e1) {
            Some((confidence, e2)) => match p_u64(s, e2) {
                Some((count, e3)) => match p_signals(s, e3, count as nat) {
                    Some((signals, e4)) => match p_str(s, e4) {
                        Some((target_date, e5)) => match p_tt(s, e5) {
                            Some((ticket_type, e6)) => if e6 == s.len() {
                                Some(
                                    StateView::Detected {
                                        detected_at,
                                        confidence,
                                        signals,
                                        target_date,
                                        ticket_type,
                                    },
                                )
                            } else {
                                None
                            },
                            None => None,
                        },
                        None => None,
                    },
                    None => None,
                },
                None => None,
            },
            None => None,
        },
        None => None,
    }
    }

/// Decode the field part of one variant.
pub open spec fn de_carting_s(s: Seq<char>) -> Option<StateView> {
    match p_i64(s, 1) {
        Some((started_at, e1)) => match p_str(s, e1) {
            Some((session_id, e2)) => match p_opt_str(s, e2) {
                Some((cart_id, e3)) => match p_str(s, e3) {
                    Some((target_date, e4)) => match p_tt(s, e4) {
                        Some((ticket_type, e5)) => if e5 == s.len() {
                            Some(
                                StateView::Carting {
                                    started_at,
                                    session_id,
                                    cart_id,
                                    target_date,
                                    ticket_type,
                                },
                            )
                        } else {
                            None
                        },
                        None => None,
                    },
                    None => None,
                },
                None => None,
            },
            None => None,
        },
        None => None,
    }
    }

/// Decode the field part of one variant.
pub open spec fn de_holding_s(s: Seq<char>) -> Option<StateView> {
    match p_str(s, 1) {
        Some((cart_id, e1)) => match p_i64(s, e1) {
            Some((expires_at, e2)) => match p_i64(s, e2) {
                Some((heartbeat_due, e3)) => match p_str(s, e3) {
                    Some((target_date, e4)) => match p_tt(s, e4) {
                        Some((ticket_type, e5)) => if e5 == s.len() {
                            Some(
                                StateView::Holding {
                                    cart_id,
                                    expires_at,
                                    heartbeat_due,
                                    target_date,
                                    ticket_type,
                                },
                            )
                        } else {
                            None
                        },
                        None => None,
                    },
                    None => None,
                },
                None => None,
            },
            None => None,
        },
        None => None,
    }
    }

/// Decode the field part of one variant.
pub open spec fn de_paying_s(s: Seq<char>) -> Option<StateView> {
    match p_i64(s, 1) {
        Some((started_at, e1)) => match p_str(s, e1) {
            Some((payment_token, e2)) => match p_method(s, e2) {
                Some((method, e3)) => match p_str(s, e3) {
                    Some((cart_id, e4)) => if e4 == s.len() {
                        Some(StateView::Paying { started_at, payment_token, method, cart_id })
                    } else {
                        None
                    },
                    None => None,
                },
                None => None,
            },
            None => None,
        },
        None => None,
    }
    }

/// Decode the field part of one variant.
pub open spec fn de_confirmed_s(s: Seq<char>) -> Option<StateView> {
    match p_i64(s, 1) {
        Some((confirmed_at, e1)) => match p_str(s, e1) {
            Some((confirmation_code, e2)) => match p_u64(s, e2) {
                Some((count, e3)) => match p_tickets(s, e3, count as nat) {
                    Some((tickets, e4)) => if e4 == s.len() {
                        Some(StateView::Confirmed { confirmed_at, confirmation_code, tickets })
                    } else {
                        None
                    },
                    None => None,
                },
                None => None,
            },
            None => None,
        },
        None => None,
    }
    }

/// Decode the field part of one variant.
pub open spec fn de_failed_s(s: Seq<char>) -> Option<StateView> {
    match p_i64(s, 1) {
        Some((failed_at, e1)) => match p_reason(s, e1) {
            Some((reason, e2)) => match p_bool(s, e2) {
                Some((retry_eligible, e3)) => if e3 == s.len() {
                    Some(StateView::Failed { failed_at, reason, retry_eligible })
                } else {
                    None
                },
                None => None,
            },
            None => None,
        },
        None => None,
    }
    }

/// Decode a printed lifecycle state, requiring the input to be exactly
/// one encoded state with nothing trailing.
pub open spec fn spec_decode(s: Seq<char>) -> Option<StateView> {
    if s.len() == 0 {
        None
    } else if s[0] == 'M' {
        de_monitoring_s(s)
    } else if s[0] == 'D' {
        de_detected_s(s)
    } else if s[0] == 'C' {
        de_carting_s(s)
    } else if s[0] == 'H' {
        de_holding_s(s)
    } else if s[0] == 'P' {
        de_paying_s(s)
    } else if s[0] == 'K' {
        de_confirmed_s(s)
    } else if s[0] == 'X' {
        de_failed_s(s)
    } else {
        None
    }
}

/// A ticket-type tag parses back.
proof fn lemma_tt_rt(s: Seq<char>, pos: int, t: TicketType)
    requires
        0 <= pos < s.len(),
        s[pos] == tt_char(t),
    ensures
        p_tt(s, pos) == Some((t, pos + 1)),
{
}

/// A signal-source tag parses back.
proof fn lemma_source_rt(s: Seq<char>, pos: int, x: SignalSource)
    requires
        0 <= pos < s.len(),
        s[pos] == source_char(x),
    ensures
        p_source(s, pos) == Some((x, pos + 1)),
{
}

/// A price-tier tag parses back.
proof fn lemma_tier_rt(s: Seq<char>, pos: int, x: PriceTier)
    requires
        0 <= pos < s.len(),
        s[pos] == tier_char(x),
    ensures
        p_tier(s, pos) == Some((x, pos + 1)),
{
}

/// A failure-reason tag parses back.
proof fn lemma_reason_rt(s: Seq<char>, pos: int, x: FailureReason)
    requires
        0 <= pos < s.len(),
        s[pos] == reason_char(x),
    ensures
        p_reason(s, pos) == Some((x, pos + 1)),
{
}

/// An embedded payment method parses back.
proof fn lemma_method_rt(s: Seq<char>, pos: int, m: MethodView)
    requires
        0 <= pos,
        pos + enc_method(m).len() <= s.len(),
        s.subrange(pos, pos + enc_method(m).len()) == enc_method(m),
    ensures
        p_method(s, pos) == Some((m, pos + enc_method(m).len())),
{
    let enc = enc_method(m);
    lemma_embed_index(s, pos, enc);
    match m {
        MethodView::VirtualCard(provider) => {
            assert(enc[0] == 'v');
            assert(s[pos] == 'v');
            lemma_embed_sub(s, pos, enc, 1, enc.len() as int);
            assert(enc.subrange(1, enc.len() as int) =~= enc_str_field(provider));
            lemma_str_field_rt(s, pos + 1, provider);
        },
        _ => {
            assert(s[pos] == enc[0]);
        },
    }
}

/// An embedded detection signal parses back.
proof fn lemma_signal_rt(s: Seq<char>, pos: int, g: SignalView)
    requires
        0 <= pos,
        pos + enc_signal(g).len() <= s.len(),
        s.subrange(pos, pos + enc_signal(g).len()) == enc_signal(g),
    ensures
        p_signal(s, pos) == Some((g, pos + enc_signal(g).len())),
{
    let enc = enc_signal(g);
    let l2 = enc_nat_field(g.confidence as nat).len() as int;
    let l3 = enc_int_field(g.timestamp_ms as int).len() as int;
    let l4 = enc_opt_str(g.metadata).len() as int;
    lemma_embed_index(s, pos, enc);
    assert(enc[0] == source_char(g.source));
    lemma_source_rt(s, pos, g.source);
    lemma_embed_sub(s, pos, enc, 1, 1 + l2);
    assert(enc.subrange(1, 1 + l2) =~= enc_nat_field(g.confidence as nat));
    lemma_nat_field_rt(s, pos + 1, g.confidence as nat);
    lemma_embed_sub(s, pos, enc, 1 + l2, 1 + l2 + l3);
    assert(enc.subrange(1 + l2, 1 + l2 + l3) =~= enc_int_field(g.timestamp_ms as int));
    lemma_i64_field_rt(s, pos + 1 + l2, g.timestamp_ms);
    lemma_embed_sub(s, pos, enc, 1 + l2 + l3, 1 + l2 + l3 + l4);
    assert(enc.subrange(1 + l2 + l3, 1 + l2 + l3 + l4) =~= enc_opt_str(g.metadata));
    lemma_opt_str_rt(s, pos + 1 + l2 + l3, g.metadata);
}

/// An embedded signal list parses back.
proof fn lemma_signals_rt(s: Seq<char>, pos: int, gs: Seq<SignalView>)
    requires
        0 <= pos,
        pos + enc_signals(gs).len() <= s.len(),
        s.subrange(pos, pos + enc_signals(gs).len()) == enc_signals(gs),
    ensures
        p_signals(s, pos, gs.len()) == Some((gs, pos + enc_signals(gs).len())),
    decreases gs.len(),
{
    if gs.len() == 0 {
        assert(gs =~= Seq::<SignalView>::empty());
    } else {
        let e0 = enc_signal(gs[0]);
        let rest = gs.drop_first();
        lemma_embed_sub(s, pos, enc_signals(gs), 0, e0.len() as int);
        assert(enc_signals(gs).subrange(0, e0.len() as int) =~= e0);
        lemma_signal_rt(s, pos, gs[0]);
        lemma_embed_sub(s, pos, enc_signals(gs), e0.len() as int, enc_signals(gs).len() as int);
        assert(enc_signals(gs).subrange(e0.len() as int, enc_signals(gs).len() as int)
            =~= enc_signals(rest));
        lemma_signals_rt(s, pos + e0.len(), rest);
        assert(seq![gs[0]] + rest =~= gs);
    }
}

/// An embedded ticket line parses back.
proof fn lemma_ticket_rt(s: Seq<char>, pos: int, t: TicketView)
    requires
        0 <= pos,
        pos + enc_ticket(t).len() <= s.len(),
        s.subrange(pos, pos + enc_ticket(t).len()) == enc_ticket(t),
    ensures
        p_ticket(s, pos) == Some((t, pos + enc_ticket(t).len())),
{
    let enc = enc_ticket(t);
    let l1 = enc_str_field(t.ticket_id).len() as int;
    let l2 = enc_str_field(t.visitor_name).len() as int;
    let l3 = enc_str_field(t.date).len() as int;
    let l4 = enc_str_field(t.time_slot).len() as int;
    lemma_embed_index(s, pos, enc);
    lemma_embed_sub(s, pos, enc, 0, l1);
    assert(enc.subrange(0, l1) =~= enc_str_field(t.ticket_id));
    lemma_str_field_rt(s, pos, t.ticket_id);
    lemma_embed_sub(s, pos, enc, l1, l1 + l2);
    assert(enc.subrange(l1, l1 + l2) =~= enc_str_field(t.visitor_name));
    lemma_str_field_rt(s, pos + l1, t.visitor_name);
    lemma_embed_sub(s, pos, enc, l1 + l2, l1 + l2 + l3);
    assert(enc.subrange(l1 + l2, l1 + l2 + l3) =~= enc_str_field(t.date));
    lemma_str_field_rt(s, pos + l1 + l2, t.date);
    lemma_embed_sub(s, pos, enc, l1 + l2 + l3, l1 + l2 + l3 + l4);
    assert(enc.subrange(l1 + l2 + l3, l1 + l2 + l3 + l4) =~= enc_str_field(t.time_slot));
    lemma_str_field_rt(s, pos + l1 + l2 + l3, t.time_slot);
    assert(enc[l1 + l2 + l3 + l4] == tt_char(t.ticket_type));
    lemma_tt_rt(s, pos + l1 + l2 + l3 + l4, t.ticket_type);
    assert(enc[l1 + l2 + l3 + l4 + 1] == tier_char(t.price_tier));
    lemma_tier_rt(s, pos + l1 + l2 + l3 + l4 + 1, t.price_tier);
}

/// An embedded ticket list parses back.
proof fn lemma_tickets_rt(s: Seq<char>, pos: int, ts: Seq<TicketView>)
    requires
        0 <= pos,
        pos + enc_tickets(ts).len() <= s.len(),
        s.subrange(pos, pos + enc_tickets(ts).len()) == enc_tickets(ts),
    ensures
        p_tickets(s, pos, ts.len()) == Some((ts, pos + enc_tickets(ts).len())),
    decreases ts.len(),
{
    if ts.len() == 0 {
        assert(ts =~= Seq::<TicketView>::empty());
    } else {
        let e0 = enc_ticket(ts[0]);
        let rest = ts.drop_first();
        lemma_embed_sub(s, pos, enc_tickets(ts), 0, e0.len() as int);
        assert(enc_tickets(ts).subrange(0, e0.len() as int) =~= e0);
        lemma_ticket_rt(s, pos, ts[0]);
        lemma_embed_sub(s, pos, enc_tickets(ts), e0.len() as int, enc_tickets(ts).len() as int);
        assert(enc_tickets(ts).subrange(e0.len() as int, enc_tickets(ts).len() as int)
            =~= enc_tickets(rest));
        lemma_tickets_rt(s, pos + e0.len(), rest);
        assert(seq![ts[0]] + rest =~= ts);
    }
}

/// One variant of the round-trip law.
#[verifier::spinoff_prover]
#[verifier::rlimit(100)]
proof fn lemma_de_monitoring(started_at: i64, last_check: i64, check_count: u64, target_date: Seq<char>, ticket_type: TicketType)
    ensures
        spec_decode(enc_state((StateView::Monitoring { started_at, last_check, check_count, target_date, ticket_type }))) == Some((StateView::Monitoring { started_at, last_check, check_count, target_date, ticket_type })),
{
    let sv = StateView::Monitoring { started_at, last_check, check_count, target_date, ticket_type };
    let s = enc_state(sv);
    assert(s.subrange(0, s.len() as int) =~= s);
    let p1 = enc_int_field(started_at as int);
    let p2 = enc_int_field(last_check as int);
    let p3 = enc_nat_field(check_count as nat);
    let p4 = enc_str_field(target_date);
    let p5 = seq![tt_char(ticket_type)];
    lemma_cat6(s, 0, seq!['M'], p1, p2, p3, p4, p5);
    let o1 = 1int;
    let o2 = o1 + p1.len();
    let o3 = o2 + p2.len();
    let o4 = o3 + p3.len();
    let o5 = o4 + p4.len();
    assert(s[0] == s.subrange(0, 1)[0]);
    lemma_i64_field_rt(s, o1, started_at);
    lemma_i64_field_rt(s, o2, last_check);
    lemma_nat_field_rt(s, o3, check_count as nat);
    lemma_str_field_rt(s, o4, target_date);
    assert(s[o5] == s.subrange(o5, o5 + 1)[0]);
    lemma_tt_rt(s, o5, ticket_type);
}

/// One variant of the round-trip law.
#[verifier::spinoff_prover]
#[verifier::rlimit(100)]
proof fn lemma_de_detected(detected_at: i64, confidence: u32, signals: Seq<SignalView>, target_date: Seq<char>, ticket_type: TicketType)
    requires
        signals.len() <= u64::MAX,
    ensures
        spec_decode(enc_state((StateView::Detected { detected_at, confidence, signals, target_date, ticket_type }))) == Some((StateView::Detected { detected_at, confidence, signals, target_date, ticket_type })),
{
    let sv = StateView::Detected { detected_at, confidence, signals, target_date, ticket_type };
    let s = enc_state(sv);
    assert(s.subrange(0, s.len() as int) =~= s);
    let p1 = enc_int_field(detected_at as int);
    let p2 = enc_nat_field(confidence as nat);
    let p3 = enc_nat_field(signals.len());
    let p4 = enc_signals(signals);
    let p5 = enc_str_field(target_date);
    let p6 = seq![tt_char(ticket_type)];
    lemma_cat7(s, 0, seq!['D'], p1, p2, p3, p4, p5, p6);
    let o1 = 1int;
    let o2 = o1 + p1.len();
    let o3 = o2 + p2.len();
    let o4 = o3 + p3.len();
    let o5 = o4 + p4.len();
    let o6 = o5 + p5.len();
    assert(s[0] == s.subrange(0, 1)[0]);
    lemma_i64_field_rt(s, o1, detected_at);
    lemma_nat_field_rt(s, o2, confidence as nat);
    lemma_nat_field_rt(s, o3, signals.len());
    lemma_signals_rt(s, o4, signals);
    lemma_str_field_rt(s, o5, target_date);
    assert(s[o6] == s.subrange(o6, o6 + 1)[0]);
    lemma_tt_rt(s, o6, ticket_type);
}

/// One variant of the round-trip law.
#[verifier::spinoff_prover]
#[verifier::rlimit(100)]
proof fn lemma_de_carting(started_at: i64, session_id: Seq<char>, cart_id: Option<Seq<char>>, target_date: Seq<char>, ticket_type: TicketType)
    ensures
        spec_decode(enc_state((StateView::Carting { started_at, session_id, cart_id, target_date, ticket_type }))) == Some((StateView::Carting { started_at, session_id, cart_id, target_date, ticket_type })),
{
    let sv = StateView::Carting { started_at, session_id, cart_id, target_date, ticket_type };
    let s = enc_state(sv);
    assert(s.subrange(0, s.len() as int) =~= s);
    let p1 = enc_int_field(started_at as int);
    let p2 = enc_str_field(session_id);
    let p3 = enc_opt_str(cart_id);
    let p4 = enc_str_field(target_date);
    let p5 = seq![tt_char(ticket_type)];
    lemma_cat6(s, 0, seq!['C'], p1, p2, p3, p4, p5);
    let o1 = 1int;
    let o2 = o1 + p1.len();
    let o3 = o2 + p2.len();
    let o4 = o3 + p3.len();
    let o5 = o4 + p4.len();
    assert(s[0] == s.subrange(0, 1)[0]);
    lemma_i64_field_rt(s, o1, started_at);
    lemma_str_field_rt(s, o2, session_id);
    lemma_opt_str_rt(s, o3, cart_id);
    lemma_str_field_rt(s, o4, target_date);
    assert(s[o5] == s.subrange(o5, o5 + 1)[0]);
    lemma_tt_rt(s, o5, ticket_type);
}

/// One variant of the round-trip law.
#[verifier::spinoff_prover]
#[verifier::rlimit(100)]
proof fn lemma_de_holding(cart_id: Seq<char>, expires_at: i64, heartbeat_due: i64, target_date: Seq<char>, ticket_type: TicketType)
    ensures
        spec_decode(enc_state((StateView::Holding { cart_id, expires_at, heartbeat_due, target_date, ticket_type }))) == Some((StateView::Holding { cart_id, expires_at, heartbeat_due, target_date, ticket_type })),
{
    let sv = StateView::Holding { cart_id, expires_at, heartbeat_due, target_date, ticket_type };
    let s = enc_state(sv);
    assert(s.subrange(0, s.len() as int) =~= s);
    let p1 = enc_str_field(cart_id);
    let p2 = enc_int_field(expires_at as int);
    let p3 = enc_int_field(heartbeat_due as int);
    let p4 = enc_str_field(target_date);
    let p5 = seq![tt_char(ticket_type)];
    lemma_cat6(s, 0, seq!['H'], p1, p2, p3, p4, p5);
    let o1 = 1int;
    let o2 = o1 + p1.len();
    let o3 = o2 + p2.len();
    let o4 = o3 + p3.len();
    let o5 = o4 + p4.len();
    assert(s[0] == s.subrange(0, 1)[0]);
    lemma_str_field_rt(s, o1, cart_id);
    lemma_i64_field_rt(s, o2, expires_at);
    lemma_i64_field_rt(s, o3, heartbeat_due);
    lemma_str_field_rt(s, o4, target_date);
    assert(s[o5] == s.subrange(o5, o5 + 1)[0]);
    lemma_tt_rt(s, o5, ticket_type);
}

/// One variant of the round-trip law.
#[verifier::spinoff_prover]
#[verifier::rlimit(100)]
proof fn lemma_de_paying(started_at: i64, payment_token: Seq<char>, method: MethodView, cart_id: Seq<char>)
    ensures
        spec_decode(enc_state((StateView::Paying { started_at, payment_token, method, cart_id }))) == Some((StateView::Paying { started_at, payment_token, method, cart_id })),
{
    let sv = StateView::Paying { started_at, payment_token, method, cart_id };
    let s = enc_state(sv);
    assert(s.subrange(0, s.len() as int) =~= s);
    let p1 = enc_int_field(started_at as int);
    let p2 = enc_str_field(payment_token);
    let p3 = enc_method(method);
    let p4 = enc_str_field(cart_id);
    lemma_cat5(s, 0, seq!['P'], p1, p2, p3, p4);
    let o1 = 1int;
    let o2 = o1 + p1.len();
    let o3 = o2 + p2.len();
    let o4 = o3 + p3.len();
    assert(s[0] == s.subrange(0, 1)[0]);
    lemma_i64_field_rt(s, o1, started_at);
    lemma_str_field_rt(s, o2, payment_token);
    lemma_method_rt(s, o3, method);
    lemma_str_field_rt(s, o4, cart_id);
}

/// One variant of the round-trip law.
#[verifier::spinoff_prover]
#[verifier::rlimit(100)]
proof fn lemma_de_confirmed(confirmed_at: i64, confirmation_code: Seq<char>, tickets: Seq<TicketView>)
    requires
        tickets.len() <= u64::MAX,
    ensures
        spec_decode(enc_state((StateView::Confirmed { confirmed_at, confirmation_code, tickets }))) == Some((StateView::Confirmed { confirmed_at, confirmation_code, tickets })),
{
    let sv = StateView::Confirmed { confirmed_at, confirmation_code, tickets };
    let s = enc_state(sv);
    assert(s.subrange(0, s.len() as int) =~= s);
    let p1 = enc_int_field(confirmed_at as int);
    let p2 = enc_str_field(confirmation_code);
    let p3 = enc_nat_field(tickets.len());
    let p4 = enc_tickets(tickets);
    lemma_cat5(s, 0, seq!['K'], p1, p2, p3, p4);
    let o1 = 1int;
    let o2 = o1 + p1.len();
    let o3 = o2 + p2.len();
    let o4 = o3 + p3.len();
    assert(s[0] == s.subrange(0, 1)[0]);
    lemma_i64_field_rt(s, o1, confirmed_at);
    lemma_str_field_rt(s, o2, confirmation_code);
    lemma_nat_field_rt(s, o3, tickets.len());
    lemma_tickets_rt(s, o4, tickets);
}

/// One variant of the round-trip law.
#[verifier::spinoff_prover]
#[verifier::rlimit(100)]
proof fn lemma_de_failed(failed_at: i64, reason: FailureReason, retry_eligible: bool)
    ensures
        spec_decode(enc_state((StateView::Failed { failed_at, reason, retry_eligible }))) == Some((StateView::Failed { failed_at, reason, retry_eligible })),
{
    let sv = StateView::Failed { failed_at, reason, retry_eligible };
    let s = enc_state(sv);
    assert(s.subrange(0, s.len() as int) =~= s);
    let p1 = enc_int_field(failed_at as int);
    let p2 = seq![reason_char(reason)];
    let p3 = enc_bool(retry_eligible);
    lemma_cat4(s, 0, seq!['X'], p1, p2, p3);
    let o1 = 1int;
    let o2 = o1 + p1.len();
    let o3 = o2 + 1;
    assert(s[0] == s.subrange(0, 1)[0]);
    lemma_i64_field_rt(s, o1, failed_at);
    assert(s[o2] == s.subrange(o2, o2 + 1)[0]);
    lemma_reason_rt(s, o2, reason);
    lemma_bool_rt(s, o3, retry_eligible);
}

/// The round-trip law at the view level: decoding the printed form of
/// any state view yields exactly that view.
pub proof fn lemma_decode_encode(sv: StateView)
    requires
        view_wf(sv),
    ensures
        spec_decode(enc_state(sv)) == Some(sv),
{
    match sv {
        StateView::Monitoring { started_at, last_check, check_count, target_date, ticket_type } => {
            lemma_de_monitoring(started_at, last_check, check_count, target_date, ticket_type);
        },
        StateView::Detected { detected_at, confidence, signals, target_date, ticket_type } => {
            lemma_de_detected(detected_at, confidence, signals, target_date, ticket_type);
        },
        StateView::Carting { started_at, session_id, cart_id, target_date, ticket_type } => {
            lemma_de_carting(started_at, session_id, cart_id, target_date, ticket_type);
        },
        StateView::Holding { cart_id, expires_at, heartbeat_due, target_date, ticket_type } => {
            lemma_de_holding(cart_id, expires_at, heartbeat_due, target_date, ticket_type);
        },
        StateView::Paying { started_at, payment_token, method, cart_id } => {
            lemma_de_paying(started_at, payment_token, method, cart_id);
        },
        StateView::Confirmed { confirmed_at, confirmation_code, tickets } => {
            lemma_de_confirmed(confirmed_at, confirmation_code, tickets);
        },
        StateView::Failed { failed_at, reason, retry_eligible } => {
            lemma_de_failed(failed_at, reason, retry_eligible);
        },
    }
}


/// Appending one element extends the printed list at its end.
proof fn lemma_enc_signals_snoc(gs: Seq<SignalView>, x: SignalView)
    ensures
        enc_signals(gs.push(x)) == enc_signals(gs) + enc_signal(x),
    decreases gs.len(),
{
    if gs.len() == 0 {
        assert(gs.push(x).drop_first() =~= Seq::<SignalView>::empty());
        assert(gs.push(x)[0] == x);
        assert(enc_signals(gs) == Seq::<char>::empty());
        assert(enc_signals(Seq::<SignalView>::empty()) == Seq::<char>::empty());
        assert(enc_signals(gs.push(x)) == enc_signal(x) + enc_signals(gs.push(x).drop_first()));
        assert(enc_signals(gs.push(x)) =~= enc_signals(gs) + enc_signal(x));
    } else {
        assert(gs.push(x).drop_first() =~= gs.drop_first().push(x));
        lemma_enc_signals_snoc(gs.drop_first(), x);
        assert(enc_signals(gs.push(x)) =~= enc_signals(gs) + enc_signal(x));
    }
}

/// Appending one element extends the printed list at its end.
proof fn lemma_enc_tickets_snoc(ts: Seq<TicketView>, x: TicketView)
    ensures
        enc_tickets(ts.push(x)) == enc_tickets(ts) + enc_ticket(x),
    decreases ts.len(),
{
    if ts.len() == 0 {
        assert(ts.push(x).drop_first() =~= Seq::<TicketView>::empty());
        assert(ts.push(x)[0] == x);
        assert(enc_tickets(ts) == Seq::<char>::empty());
        assert(enc_tickets(Seq::<TicketView>::empty()) == Seq::<char>::empty());
        assert(enc_tickets(ts.push(x)) == enc_ticket(x) + enc_tickets(ts.push(x).drop_first()));
        assert(enc_tickets(ts.push(x)) =~= enc_tickets(ts) + enc_ticket(x));
    } else {
        assert(ts.push(x).drop_first() =~= ts.drop_first().push(x));
        lemma_enc_tickets_snoc(ts.drop_first(), x);
        assert(enc_tickets(ts.push(x)) =~= enc_tickets(ts) + enc_ticket(x));
    }
}

/// Append a ticket-type tag.
fn put_tt(out: &mut String, t: &TicketType)
    ensures
        final(out)@ == old(out)@ + seq![tt_char(*t)],
{
    match t {
        TicketType::Ordinario => out.append("o"),
        TicketType::FullExperienceArena => out.append("a"),
        TicketType::FullExperienceUnderground => out.append("u"),
        TicketType::ForumPassSuper => out.append("f"),
    }
    proof {
        reveal_strlit("o");
        reveal_strlit("a");
        reveal_strlit("u");
        reveal_strlit("f");
        assert(final(out)@ =~= old(out)@ + seq![tt_char(*t)]);
    }
}

/// Append a signal-source tag.
fn put_source(out: &mut String, x: &SignalSource)
    ensures
        final(out)@ == old(out)@ + seq![source_char(*x)],
{
    match x {
        SignalSource::ApiResponse => out.append("a"),
        SignalSource::DomMutation => out.append("d"),
        SignalSource::VisualConfirmation => out.append("v"),
        SignalSource::TimingAnalysis => out.append("t"),
        SignalSource::CrossSession => out.append("c"),
    }
    proof {
        reveal_strlit("a");
        reveal_strlit("d");
        reveal_strlit("v");
        reveal_strlit("t");
        reveal_strlit("c");
        assert(final(out)@ =~= old(out)@ + seq![source_char(*x)]);
    }
}

/// Append a price-tier tag.
fn put_tier(out: &mut String, x: &PriceTier)
    ensures
        final(out)@ == old(out)@ + seq![tier_char(*x)],
{
    match x {
        PriceTier::Intero => out.append("i"),
        PriceTier::Ridotto => out.append("r"),
        PriceTier::Gratuito => out.append("g"),
    }
    proof {
        reveal_strlit("i");
        reveal_strlit("r");
        reveal_strlit("g");
        assert(final(out)@ =~= old(out)@ + seq![tier_char(*x)]);
    }
}

/// Append a failure-reason tag.
fn put_reason(out: &mut String, x: &FailureReason)
    ensures
        final(out)@ == old(out)@ + seq![reason_char(*x)],
{
    match x {
        FailureReason::CartHoldExpired => out.append("c"),
        FailureReason::PaymentDeclined => out.append("p"),
        FailureReason::SessionInvalid => out.append("s"),
        FailureReason::QueueItDetected => out.append("q"),
        FailureReason::RateLimited => out.append("r"),
        FailureReason::NetworkError => out.append("n"),
        FailureReason::ValidationFailed => out.append("v"),
        FailureReason::InventoryGone => out.append("i"),
        FailureReason::Timeout => out.append("t"),
    }
    proof {
        reveal_strlit("c");
        reveal_strlit("p");
        reveal_strlit("s");
        reveal_strlit("q");
        reveal_strlit("r");
        reveal_strlit("n");
        reveal_strlit("v");
        reveal_strlit("i");
        reveal_strlit("t");
        assert(final(out)@ =~= old(out)@ + seq![reason_char(*x)]);
    }
}

/// Append a payment method.
fn put_method(out: &mut String, m: &PaymentMethod)
    ensures
        final(out)@ == old(out)@ + enc_method(method_view(*m)),
{
    match m {
        PaymentMethod::UniCreditCard => {
            out.append("u");
            proof {
                reveal_strlit("u");
                assert(final(out)@ =~= old(out)@ + enc_method(method_view(*m)));
            }
        },
        PaymentMethod::PayPal => {
            out.append("p");
            proof {
                reveal_strlit("p");
                assert(final(out)@ =~= old(out)@ + enc_method(method_view(*m)));
            }
        },
        PaymentMethod::BankTransfer => {
            out.append("b");
            proof {
                reveal_strlit("b");
                assert(final(out)@ =~= old(out)@ + enc_method(method_view(*m)));
            }
        },
        PaymentMethod::VirtualCard { provider } => {
            out.append("v");
            proof {
                reveal_strlit("v");
            }
            put_str(out, provider);
            proof {
                assert(final(out)@ =~= old(out)@ + enc_method(method_view(*m)));
            }
        },
    }
}

/// Append one detection signal.
fn put_signal(out: &mut String, g: &DetectionSignal)
    ensures
        final(out)@ == old(out)@ + enc_signal(signal_view(*g)),
{
    put_source(out, &g.source);
    put_u64(out, g.confidence as u64);
    put_i64(out, g.timestamp_ms);
    put_opt_str(out, &g.metadata);
    proof {
        assert(final(out)@ =~= old(out)@ + enc_signal(signal_view(*g)));
    }
}

/// Append one ticket line.
fn put_ticket(out: &mut String, t: &TicketDetail)
    ensures
        final(out)@ == old(out)@ + enc_ticket(ticket_view(*t)),
{
    put_str(out, &t.ticket_id);
    put_str(out, &t.visitor_name);
    put_str(out, &t.date);
    put_str(out, &t.time_slot);
    put_tt(out, &t.ticket_type);
    put_tier(out, &t.price_tier);
    proof {
        assert(final(out)@ =~= old(out)@ + enc_ticket(ticket_view(*t)));
    }
}

/// Append a signal list.
fn put_signals(out: &mut String, gs: &Vec<DetectionSignal>)
    ensures
        final(out)@ == old(out)@ + enc_signals(
            gs@.map_values(|g: DetectionSignal| signal_view(g)),
        ),
{
    let ghost gsv = gs@.map_values(|g: DetectionSignal| signal_view(g));
    let n = gs.len();
    let mut i: usize = 0;
    proof {
        assert(gsv.subrange(0, 0) =~= Seq::<SignalView>::empty());
        assert(out@ =~= old(out)@ + enc_signals(gsv.subrange(0, 0)));
    }
    while i < n
        invariant
            i <= n,
            n == gs@.len(),
            gsv == gs@.map_values(|g: DetectionSignal| signal_view(g)),
            out@ == old(out)@ + enc_signals(gsv.subrange(0, i as int)),
        decreases n - i,
    {
        put_signal(out, &gs[i]);
        proof {
            assert(gsv.subrange(0, (i + 1) as int) =~= gsv.subrange(0, i as int).push(
                gsv[i as int],
            ));
            lemma_enc_signals_snoc(gsv.subrange(0, i as int), gsv[i as int]);
            assert(out@ =~= old(out)@ + enc_signals(gsv.subrange(0, (i + 1) as int)));
        }
        i = i + 1;
    }
    proof {
        assert(gsv.subrange(0, n as int) =~= gsv);
    }
}

/// Append a ticket list.
fn put_tickets(out: &mut String, ts: &Vec<TicketDetail>)
    ensures
        final(out)@ == old(out)@ + enc_tickets(ts@.map_values(|t: TicketDetail| ticket_view(t))),
{
    let ghost tsv = ts@.map_values(|t: TicketDetail| ticket_view(t));
    let n = ts.len();
    let mut i: usize = 0;
    proof {
        assert(tsv.subrange(0, 0) =~= Seq::<TicketView>::empty());
        assert(out@ =~= old(out)@ + enc_tickets(tsv.subrange(0, 0)));
    }
    while i < n
        invariant
            i <= n,
            n == ts@.len(),
            tsv == ts@.map_values(|t: TicketDetail| ticket_view(t)),
            out@ == old(out)@ + enc_tickets(tsv.subrange(0, i as int)),
        decreases n - i,
    {
        put_ticket(out, &ts[i]);
        proof {
            assert(tsv.subrange(0, (i + 1) as int) =~= tsv.subrange(0, i as int).push(
                tsv[i as int],
            ));
            lemma_enc_tickets_snoc(tsv.subrange(0, i as int), tsv[i as int]);
            assert(out@ =~= old(out)@ + enc_tickets(tsv.subrange(0, (i + 1) as int)));
        }
        i = i + 1;
    }
    proof {
        assert(tsv.subrange(0, n as int) =~= tsv);
    }
}

/// Print a lifecycle state into its persisted text form.
pub fn encode_state(st: &TicketState) -> (r: String)
    ensures
        r@ == enc_state(state_view(*st)),
{
    let mut out = String::new();
    match st {
        TicketState::Monitoring { started_at, last_check, check_count, target_date, ticket_type } => {
            out.append("M");
            proof {
                reveal_strlit("M");
            }
            put_i64(&mut out, *started_at);
            put_i64(&mut out, *last_check);
            put_u64(&mut out, *check_count);
            put_str(&mut out, target_date);
            put_tt(&mut out, ticket_type);
            proof {
                assert(out@ =~= enc_state(state_view(*st)));
            }
        },
        TicketState::Detected { detected_at, confidence, signals, target_date, ticket_type } => {
            out.append("D");
            proof {
                reveal_strlit("D");
            }
            put_i64(&mut out, *detected_at);
            put_u64(&mut out, *confidence as u64);
            put_u64(&mut out, signals.len() as u64);
            put_signals(&mut out, signals);
            put_str(&mut out, target_date);
            put_tt(&mut out, ticket_type);
            proof {
                assert(out@ =~= enc_state(state_view(*st)));
            }
        },
        TicketState::Carting { started_at, session_id, cart_id, target_date, ticket_type } => {
            out.append("C");
            proof {
                reveal_strlit("C");
            }
            put_i64(&mut out, *started_at);
            put_str(&mut out, session_id);
            put_opt_str(&mut out, cart_id);
            put_str(&mut out, target_date);
            put_tt(&mut out, ticket_type);
            proof {
                assert(out@ =~= enc_state(state_view(*st)));
            }
        },
        TicketState::Holding { cart_id, expires_at, heartbeat_due, target_date, ticket_type } => {
            out.append("H");
            proof {
                reveal_strlit("H");
            }
            put_str(&mut out, cart_id);
            put_i64(&mut out, *expires_at);
            put_i64(&mut out, *heartbeat_due);
            put_str(&mut out, target_date);
            put_tt(&mut out, ticket_type);
            proof {
                assert(out@ =~= enc_state(state_view(*st)));
            }
        },
        TicketState::Paying { started_at, payment_token, method, cart_id } => {
            out.append("P");
            proof {
                reveal_strlit("P");
            }
            put_i64(&mut out, *started_at);
            put_str(&mut out, payment_token);
            put_method(&mut out, method);
            put_str(&mut out, cart_id);
            proof {
                assert(out@ =~= enc_state(state_view(*st)));
            }
        },
        TicketState::Confirmed { confirmed_at, confirmation_code, tickets } => {
            out.append("K");
            proof {
                reveal_strlit("K");
            }
            put_i64(&mut out, *confirmed_at);
            put_str(&mut out, confirmation_code);
            put_u64(&mut out, tickets.len() as u64);
            put_tickets(&mut out, tickets);
            proof {
                assert(out@ =~= enc_state(state_view(*st)));
            }
        },
        TicketState::Failed { failed_at, reason, retry_eligible } => {
            out.append("X");
            proof {
                reveal_strlit("X");
            }
            put_i64(&mut out, *failed_at);
            put_reason(&mut out, reason);
            put_bool(&mut out, *retry_eligible);
            proof {
                assert(out@ =~= enc_state(state_view(*st)));
            }
        },
    }
    out
}


/// Scan a ticket-type tag.
fn take_tt(s: &str, n_chars: usize, pos: usize) -> (r: Option<(TicketType, usize)>)
    requires
        n_chars == s@.len(),
        pos <= n_chars,
    ensures
        r matches Some(q) ==> q.1 <= n_chars,
        p_tt(s@, pos as int) matches Some(p) ==> (r matches Some(q) && q.0 == p.0 && q.1 == p.1),
        p_tt(s@, pos as int) is None ==> r is None,
{
    if pos < n_chars {
        let c = s.get_char(pos);
        if c == 'o' {
            Some((TicketType::Ordinario, pos + 1))
        } else if c == 'a' {
            Some((TicketType::FullExperienceArena, pos + 1))
        } else if c == 'u' {
            Some((TicketType::FullExperienceUnderground, pos + 1))
        } else if c == 'f' {
            Some((TicketType::ForumPassSuper, pos + 1))
        } else {
            None
        }
    } else {
        None
    }
}

/// Scan a signal-source tag.
fn take_source(s: &str, n_chars: usize, pos: usize) -> (r: Option<(SignalSource, usize)>)
    requires
        n_chars == s@.len(),
        pos <= n_chars,
    ensures
        r matches Some(q) ==> q.1 <= n_chars,
        p_source(s@, pos as int) matches Some(p) ==> (r matches Some(q) && q.0 == p.0 && q.1
            == p.1),
        p_source(s@, pos as int) is None ==> r is None,
{
    if pos < n_chars {
        let c = s.get_char(pos);
        if c == 'a' {
            Some((SignalSource::ApiResponse, pos + 1))
        } else if c == 'd' {
            Some((SignalSource::DomMutation, pos + 1))
        } else if c == 'v' {
            Some((SignalSource::VisualConfirmation, pos + 1))
        } else if c == 't' {
            Some((SignalSource::TimingAnalysis, pos + 1))
        } else if c == 'c' {
            Some((SignalSource::CrossSession, pos + 1))
        } else {
            None
        }
    } else {
        None
    }
}

/// Scan a price-tier tag.
fn take_tier(s: &str, n_chars: usize, pos: usize) -> (r: Option<(PriceTier, usize)>)
    requires
        n_chars == s@.len(),
        pos <= n_chars,
    ensures
        r matches Some(q) ==> q.1 <= n_chars,
        p_tier(s@, pos as int) matches Some(p) ==> (r matches Some(q) && q.0 == p.0 && q.1 == p.1),
        p_tier(s@, pos as int) is None ==> r is None,
{
    if pos < n_chars {
        let c = s.get_char(pos);
        if c == 'i' {
            Some((PriceTier::Intero, pos + 1))
        } else if c == 'r' {
            Some((PriceTier::Ridotto, pos + 1))
        } else if c == 'g' {
            Some((PriceTier::Gratuito, pos + 1))
        } else {
            None
        }
    } else {
        None
    }
}

/// Scan a failure-reason tag.
fn take_reason(s: &str, n_chars: usize, pos: usize) -> (r: Option<(FailureReason, usize)>)
    requires
        n_chars == s@.len(),
        pos <= n_chars,
    ensures
        r matches Some(q) ==> q.1 <= n_chars,
        p_reason(s@, pos as int) matches Some(p) ==> (r matches Some(q) && q.0 == p.0 && q.1
            == p.1),
        p_reason(s@, pos as int) is None ==> r is None,
{
    if pos < n_chars {
        let c = s.get_char(pos);
        if c == 'c' {
            Some((FailureReason::CartHoldExpired, pos + 1))
        } else if c == 'p' {
            Some((FailureReason::PaymentDeclined, pos + 1))
        } else if c == 's' {
            Some((FailureReason::SessionInvalid, pos + 1))
        } else if c == 'q' {
            Some((FailureReason::QueueItDetected, pos + 1))
        } else if c == 'r' {
            Some((FailureReason::RateLimited, pos + 1))
        } else if c == 'n' {
            Some((FailureReason::NetworkError, pos + 1))
        } else if c == 'v' {
            Some((FailureReason::ValidationFailed, pos + 1))
        } else if c == 'i' {
            Some((FailureReason::InventoryGone, pos + 1))
        } else if c == 't' {
            Some((FailureReason::Timeout, pos + 1))
        } else {
            None
        }
    } else {
        None
    }
}

/// Scan a payment method.
fn take_method(s: &str, n_chars: usize, pos: usize) -> (r: Option<(PaymentMethod, usize)>)
    requires
        n_chars == s@.len(),
        pos <= n_chars,
    ensures
        r matches Some(q) ==> q.1 <= n_chars,
        p_method(s@, pos as int) matches Some(p) ==> (r matches Some(q) && method_view(q.0) == p.0
            && q.1 == p.1),
        p_method(s@, pos as int) is None ==> r is None,
{
    if pos < n_chars {
        let c = s.get_char(pos);
        if c == 'u' {
            Some((PaymentMethod::UniCreditCard, pos + 1))
        } else if c == 'p' {
            Some((PaymentMethod::PayPal, pos + 1))
        } else if c == 'b' {
            Some((PaymentMethod::BankTransfer, pos + 1))
        } else if c == 'v' {
            let t = take_str(s, n_chars, pos + 1);
            if t.is_none() {
                return None;
            }
            let (provider, e) = t.unwrap();
            Some((PaymentMethod::VirtualCard { provider }, e))
        } else {
            None
        }
    } else {
        None
    }
}

/// Scan one detection signal.
fn take_signal(s: &str, n_chars: usize, pos: usize) -> (r: Option<(DetectionSignal, usize)>)
    requires
        n_chars == s@.len(),
        pos <= n_chars,
    ensures
        r matches Some(q) ==> q.1 <= n_chars,
        p_signal(s@, pos as int) matches Some(p) ==> (r matches Some(q) && signal_view(q.0) == p.0
            && q.1 == p.1),
        p_signal(s@, pos as int) is None ==> r is None,
{
    let t1 = take_source(s, n_chars, pos);
    if t1.is_none() {
        return None;
    }
    let (source, e1) = t1.unwrap();
    let t2 = take_u32(s, n_chars, e1);
    if t2.is_none() {
        return None;
    }
    let (confidence, e2) = t2.unwrap();
    let t3 = take_i64(s, n_chars, e2);
    if t3.is_none() {
        return None;
    }
    let (timestamp_ms, e3) = t3.unwrap();
    let t4 = take_opt_str(s, n_chars, e3);
    if t4.is_none() {
        return None;
    }
    let (metadata, e4) = t4.unwrap();
    Some((DetectionSignal { source, confidence, timestamp_ms, metadata }, e4))
}

/// Scan `k` detection signals.
fn take_signals(s: &str, n_chars: usize, pos: usize, k: u64) -> (r: Option<(
    Vec<DetectionSignal>,
    usize,
)>)
    requires
        n_chars == s@.len(),
        pos <= n_chars,
    ensures
        r matches Some(q) ==> q.1 <= n_chars,
        p_signals(s@, pos as int, k as nat) matches Some(p) ==> (r matches Some(q) && q.0@
            .map_values(|g: DetectionSignal| signal_view(g)) == p.0 && q.1 == p.1),
        p_signals(s@, pos as int, k as nat) is None ==> r is None,
{
    let mut out: Vec<DetectionSignal> = Vec::new();
    let mut cur: usize = pos;
    let mut i: u64 = 0;
    proof {
        assert(out@.map_values(|g: DetectionSignal| signal_view(g)) =~= Seq::<
            SignalView,
        >::empty());
    }
    while i < k
        invariant
            i <= k,
            cur <= n_chars,
            n_chars == s@.len(),
            p_signals(s@, pos as int, k as nat) == (match p_signals(
                s@,
                cur as int,
                (k - i) as nat,
            ) {
                Some((rest, e)) => Some(
                    (out@.map_values(|g: DetectionSignal| signal_view(g)) + rest, e),
                ),
                None => None::<(Seq<SignalView>, int)>,
            }),
        decreases k - i,
    {
        let ghost prefix = out@.map_values(|g: DetectionSignal| signal_view(g));
        let t = take_signal(s, n_chars, cur);
        if t.is_none() {
            return None;
        }
        let (g, e) = t.unwrap();
        proof {
            assert(prefix + (seq![signal_view(g)] + p_signals(
                s@,
                e as int,
                (k - i - 1) as nat,
            ).unwrap().0) =~= (prefix.push(signal_view(g)) + p_signals(
                s@,
                e as int,
                (k - i - 1) as nat,
            ).unwrap().0)) by {
                if p_signals(s@, e as int, (k - i - 1) as nat) is Some {
                }
            }
        }
        out.push(g);
        cur = e;
        i = i + 1;
        proof {
            assert(out@.map_values(|g2: DetectionSignal| signal_view(g2)) =~= prefix.push(
                signal_view(g),
            ));
        }
    }
    proof {
        assert(p_signals(s@, cur as int, 0) == Some(
            (Seq::<SignalView>::empty(), cur as int),
        ));
        assert(out@.map_values(|g: DetectionSignal| signal_view(g)) + Seq::<SignalView>::empty()
            =~= out@.map_values(|g: DetectionSignal| signal_view(g)));
    }
    Some((out, cur))
}

/// Scan one ticket line.
fn take_ticket(s: &str, n_chars: usize, pos: usize) -> (r: Option<(TicketDetail, usize)>)
    requires
        n_chars == s@.len(),
        pos <= n_chars,
    ensures
        p_ticket(s@, pos as int) matches Some(p) ==> (r matches Some(q) && ticket_view(q.0) == p.0
            && q.1 == p.1),
        p_ticket(s@, pos as int) is None ==> r is None,
{
    let t1 = take_str(s, n_chars, pos);
    if t1.is_none() {
        return None;
    }
    let (ticket_id, e1) = t1.unwrap();
    let t2 = take_str(s, n_chars, e1);
    if t2.is_none() {
        return None;
    }
    let (visitor_name, e2) = t2.unwrap();
    let t3 = take_str(s, n_chars, e2);
    if t3.is_none() {
        return None;
    }
    let (date, e3) = t3.unwrap();
    let t4 = take_str(s, n_chars, e3);
    if t4.is_none() {
        return None;
    }
    let (time_slot, e4) = t4.unwrap();
    let t5 = take_tt(s, n_chars, e4);
    if t5.is_none() {
        return None;
    }
    let (ticket_type, e5) = t5.unwrap();
    let t6 = take_tier(s, n_chars, e5);
    if t6.is_none() {
        return None;
    }
    let (price_tier, e6) = t6.unwrap();
    Some(
        (
            TicketDetail { ticket_id, visitor_name, date, time_slot, ticket_type, price_tier },
            e6,
        ),
    )
}

/// Scan `k` ticket lines.
fn take_tickets(s: &str, n_chars: usize, pos: usize, k: u64) -> (r: Option<(
    Vec<TicketDetail>,
    usize,
)>)
    requires
        n_chars == s@.len(),
        pos <= n_chars,
    ensures
        r matches Some(q) ==> q.1 <= n_chars,
        p_tickets(s@, pos as int, k as nat) matches Some(p) ==> (r matches Some(q) && q.0@
            .map_values(|t: TicketDetail| ticket_view(t)) == p.0 && q.1 == p.1),
        p_tickets(s@, pos as int, k as nat) is None ==> r is None,
{
    let mut out: Vec<TicketDetail> = Vec::new();
    let mut cur: usize = pos;
    let mut i: u64 = 0;
    proof {
        assert(out@.map_values(|t: TicketDetail| ticket_view(t)) =~= Seq::<TicketView>::empty());
    }
    while i < k
        invariant
            i <= k,
            cur <= n_chars,
            n_chars == s@.len(),
            p_tickets(s@, pos as int, k as nat) == (match p_tickets(
                s@,
                cur as int,
                (k - i) as nat,
            ) {
                Some((rest, e)) => Some(
                    (out@.map_values(|t: TicketDetail| ticket_view(t)) + rest, e),
                ),
                None => None::<(Seq<TicketView>, int)>,
            }),
        decreases k - i,
    {
        let ghost prefix = out@.map_values(|t: TicketDetail| ticket_view(t));
        let t = take_ticket(s, n_chars, cur);
        if t.is_none() {
            return None;
        }
        let (tk, e) = t.unwrap();
        proof {
            assert(prefix + (seq![ticket_view(tk)] + p_tickets(
                s@,
                e as int,
                (k - i - 1) as nat,
            ).unwrap().0) =~= (prefix.push(ticket_view(tk)) + p_tickets(
                s@,
                e as int,
                (k - i - 1) as nat,
            ).unwrap().0)) by {
                if p_tickets(s@, e as int, (k - i - 1) as nat) is Some {
                }
            }
        }
        out.push(tk);
        cur = e;
        i = i + 1;
        proof {
            assert(out@.map_values(|t2: TicketDetail| ticket_view(t2)) =~= prefix.push(
                ticket_view(tk),
            ));
        }
    }
    proof {
        assert(p_tickets(s@, cur as int, 0) == Some(
            (Seq::<TicketView>::empty(), cur as int),
        ));
        assert(out@.map_values(|t: TicketDetail| ticket_view(t)) + Seq::<TicketView>::empty()
            =~= out@.map_values(|t: TicketDetail| ticket_view(t)));
    }
    Some((out, cur))
}


/// Decode the fields of a monitoring state.
fn de_monitoring_x(s: &str, n_chars: usize) -> (r: Option<TicketState>)
    requires
        n_chars == s@.len(),
        1 <= n_chars,
    ensures
        de_monitoring_s(s@) matches Some(sv) ==> (r matches Some(st) && state_view(st) == sv),
        de_monitoring_s(s@) is None ==> r is None,
{
    let t1 = take_i64(s, n_chars, 1);
    if t1.is_none() {
        return None;
    }
    let (started_at, e1) = t1.unwrap();
    let t2 = take_i64(s, n_chars, e1);
    if t2.is_none() {
        return None;
    }
    let (last_check, e2) = t2.unwrap();
    let t3 = take_u64(s, n_chars, e2);
    if t3.is_none() {
        return None;
    }
    let (check_count, e3) = t3.unwrap();
    let t4 = take_str(s, n_chars, e3);
    if t4.is_none() {
        return None;
    }
    let (target_date, e4) = t4.unwrap();
    let t5 = take_tt(s, n_chars, e4);
    if t5.is_none() {
        return None;
    }
    let (ticket_type, e5) = t5.unwrap();
    if e5 != n_chars {
        return None;
    }
    Some(
        TicketState::Monitoring { started_at, last_check, check_count, target_date, ticket_type },
    )
}

/// Decode the fields of a detected state.
fn de_detected_x(s: &str, n_chars: usize) -> (r: Option<TicketState>)
    requires
        n_chars == s@.len(),
        1 <= n_chars,
    ensures
        de_detected_s(s@) matches Some(sv) ==> (r matches Some(st) && state_view(st) == sv),
        de_detected_s(s@) is None ==> r is None,
{
    let t1 = take_i64(s, n_chars, 1);
    if t1.is_none() {
        return None;
    }
    let (detected_at, e1) = t1.unwrap();
    let t2 = take_u32(s, n_chars, e1);
    if t2.is_none() {
        return None;
    }
    let (confidence, e2) = t2.unwrap();
    let t3 = take_u64(s, n_chars, e2);
    if t3.is_none() {
        return None;
    }
    let (count, e3) = t3.unwrap();
    let t4 = take_signals(s, n_chars, e3, count);
    if t4.is_none() {
        return None;
    }
    let (signals, e4) = t4.unwrap();
    let t5 = take_str(s, n_chars, e4);
    if t5.is_none() {
        return None;
    }
    let (target_date, e5) = t5.unwrap();
    let t6 = take_tt(s, n_chars, e5);
    if t6.is_none() {
        return None;
    }
    let (ticket_type, e6) = t6.unwrap();
    if e6 != n_chars {
        return None;
    }
    Some(TicketState::Detected { detected_at, confidence, signals, target_date, ticket_type })
}

/// Decode the fields of a carting state.
fn de_carting_x(s: &str, n_chars: usize) -> (r: Option<TicketState>)
    requires
        n_chars == s@.len(),
        1 <= n_chars,
    ensures
        de_carting_s(s@) matches Some(sv) ==> (r matches Some(st) && state_view(st) == sv),
        de_carting_s(s@) is None ==> r is None,
{
    let t1 = take_i64(s, n_chars, 1);
    if t1.is_none() {
        return None;
    }
    let (started_at, e1) = t1.unwrap();
    let t2 = take_str(s, n_chars, e1);
    if t2.is_none() {
        return None;
    }
    let (session_id, e2) = t2.unwrap();
    let t3 = take_opt_str(s, n_chars, e2);
    if t3.is_none() {
        return None;
    }
    let (cart_id, e3) = t3.unwrap();
    let t4 = take_str(s, n_chars, e3);
    if t4.is_none() {
        return None;
    }
    let (target_date, e4) = t4.unwrap();
    let t5 = take_tt(s, n_chars, e4);
    if t5.is_none() {
        return None;
    }
    let (ticket_type, e5) = t5.unwrap();
    if e5 != n_chars {
        return None;
    }
    Some(TicketState::Carting { started_at, session_id, cart_id, target_date, ticket_type })
}

/// Decode the fields of a holding state.
fn de_holding_x(s: &str, n_chars: usize) -> (r: Option<TicketState>)
    requires
        n_chars == s@.len(),
        1 <= n_chars,
    ensures
        de_holding_s(s@) matches Some(sv) ==> (r matches Some(st) && state_view(st) == sv),
        de_holding_s(s@) is None ==> r is None,
{
    let t1 = take_str(s, n_chars, 1);
    if t1.is_none() {
        return None;
    }
    let (cart_id, e1) = t1.unwrap();
    let t2 = take_i64(s, n_chars, e1);
    if t2.is_none() {
        return None;
    }
    let (expires_at, e2) = t2.unwrap();
    let t3 = take_i64(s, n_chars, e2);
    if t3.is_none() {
        return None;
    }
    let (heartbeat_due, e3) = t3.unwrap();
    let t4 = take_str(s, n_chars, e3);
    if t4.is_none() {
        return None;
    }
    let (target_date, e4) = t4.unwrap();
    let t5 = take_tt(s, n_chars, e4);
    if t5.is_none() {
        return None;
    }
    let (ticket_type, e5) = t5.unwrap();
    if e5 != n_chars {
        return None;
    }
    Some(TicketState::Holding { cart_id, expires_at, heartbeat_due, target_date, ticket_type })
}

/// Decode the fields of a paying state.
fn de_paying_x(s: &str, n_chars: usize) -> (r: Option<TicketState>)
    requires
        n_chars == s@.len(),
        1 <= n_chars,
    ensures
        de_paying_s(s@) matches Some(sv) ==> (r matches Some(st) && state_view(st) == sv),
        de_paying_s(s@) is None ==> r is None,
{
    let t1 = take_i64(s, n_chars, 1);
    if t1.is_none() {
        return None;
    }
    let (started_at, e1) = t1.unwrap();
    let t2 = take_str(s, n_chars, e1);
    if t2.is_none() {
        return None;
    }
    let (payment_token, e2) = t2.unwrap();
    let t3 = take_method(s, n_chars, e2);
    if t3.is_none() {
        return None;
    }
    let (method, e3) = t3.unwrap();
    let t4 = take_str(s, n_chars, e3);
    if t4.is_none() {
        return None;
    }
    let (cart_id, e4) = t4.unwrap();
    if e4 != n_chars {
        return None;
    }
    Some(TicketState::Paying { started_at, payment_token, method, cart_id })
}

/// Decode the fields of a confirmed state.
fn de_confirmed_x(s: &str, n_chars: usize) -> (r: Option<TicketState>)
    requires
        n_chars == s@.len(),
        1 <= n_chars,
    ensures
        de_confirmed_s(s@) matches Some(sv) ==> (r matches Some(st) && state_view(st) == sv),
        de_confirmed_s(s@) is None ==> r is None,
{
    let t1 = take_i64(s, n_chars, 1);
    if t1.is_none() {
        return None;
    }
    let (confirmed_at, e1) = t1.unwrap();
    let t2 = take_str(s, n_chars, e1);
    if t2.is_none() {
        return None;
    }
    let (confirmation_code, e2) = t2.unwrap();
    let t3 = take_u64(s, n_chars, e2);
    if t3.is_none() {
        return None;
    }
    let (count, e3) = t3.unwrap();
    let t4 = take_tickets(s, n_chars, e3, count);
    if t4.is_none() {
        return None;
    }
    let (tickets, e4) = t4.unwrap();
    if e4 != n_chars {
        return None;
    }
    Some(TicketState::Confirmed { confirmed_at, confirmation_code, tickets })
}

/// Decode the fields of a failed state.
fn de_failed_x(s: &str, n_chars: usize) -> (r: Option<TicketState>)
    requires
        n_chars == s@.len(),
        1 <= n_chars,
    ensures
        de_failed_s(s@) matches Some(sv) ==> (r matches Some(st) && state_view(st) == sv),
        de_failed_s(s@) is None ==> r is None,
{
    let t1 = take_i64(s, n_chars, 1);
    if t1.is_none() {
        return None;
    }
    let (failed_at, e1) = t1.unwrap();
    let t2 = take_reason(s, n_chars, e1);
    if t2.is_none() {
        return None;
    }
    let (reason, e2) = t2.unwrap();
    let t3 = take_bool(s, n_chars, e2);
    if t3.is_none() {
        return None;
    }
    let (retry_eligible, e3) = t3.unwrap();
    if e3 != n_chars {
        return None;
    }
    Some(TicketState::Failed { failed_at, reason, retry_eligible })
}

/// Parse a persisted text form back into a lifecycle state. A string
/// that is not exactly the printed form of some state is rejected: the
/// decoder can return a state only when the input is its encoding, so
/// corrupt or incompatible payloads surface as `None`, never as a
/// wrong state.
pub fn decode_state(s: &String) -> (r: Option<TicketState>)
    ensures
        spec_decode(s@) matches Some(sv) ==> (r matches Some(st) && state_view(st) == sv),
        spec_decode(s@) is None ==> r is None,
{
    let sr = s.as_str();
    let n_chars = char_count(sr);
    if n_chars == 0 {
        return None;
    }
    let c = sr.get_char(0);
    if c == 'M' {
        de_monitoring_x(sr, n_chars)
    } else if c == 'D' {
        de_detected_x(sr, n_chars)
    } else if c == 'C' {
        de_carting_x(sr, n_chars)
    } else if c == 'H' {
        de_holding_x(sr, n_chars)
    } else if c == 'P' {
        de_paying_x(sr, n_chars)
    } else if c == 'K' {
        de_confirmed_x(sr, n_chars)
    } else if c == 'X' {
        de_failed_x(sr, n_chars)
    } else {
        None
    }
}

/// The codec round-trip law: printing any lifecycle state and parsing
/// the result yields a state with the identical view — every field,
/// list entry and string reads back exactly as it was saved. By the
/// contract of `decode_state` no other outcome is possible for an
/// encoded input. The precondition only rules out states whose signal
/// or ticket list exceeds the 64-bit count field; no state a program
/// can build is that long.
pub proof fn lemma_codec_round_trip(st: TicketState)
    requires
        view_wf(state_view(st)),
    ensures
        spec_decode(enc_state(state_view(st))) == Some(state_view(st)),
{
    lemma_decode_encode(state_view(st));
}

} // verus!
