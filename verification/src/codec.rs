//! Binary codec for the persisted poll record: strings as a little-endian
//! `u32` length prefix plus bytes, integers as fixed-width little-endian,
//! lists as a `u32` count plus elements, fields in declared order. Decoding is
//! all-or-nothing and consumes the whole buffer.
use vstd::prelude::*;

verus! {

use vstd::bytes::{
    lemma_auto_spec_u32_to_from_le_bytes, lemma_auto_spec_u64_to_from_le_bytes,
    spec_u32_from_le_bytes, spec_u32_to_le_bytes, spec_u64_from_le_bytes, spec_u64_to_le_bytes,
    u32_from_le_bytes, u32_to_le_bytes, u64_from_le_bytes, u64_to_le_bytes,
};
use vstd::slice::{slice_subrange, slice_to_vec};
use crate::errors::VoteProgramError;
use crate::state::{spec_options_view, VotingAccount, VotingAccountV, VotingOption, VotingOptionV};

/// The encoding of a byte string: a little-endian `u32` length prefix, then
/// the bytes.
pub open spec fn spec_encode_bytes(s: Seq<u8>) -> Seq<u8> {
    spec_u32_to_le_bytes(s.len() as u32) + s
}

/// The encoding of a timestamp: its two's-complement bits, little-endian.
pub open spec fn spec_encode_i64(x: i64) -> Seq<u8> {
    spec_u64_to_le_bytes(x as u64)
}

/// The encoding of one option: counter, id, description, in declared order.
pub open spec fn spec_encode_option(o: VotingOptionV) -> Seq<u8> {
    spec_u32_to_le_bytes(o.counter) + seq![o.option_id] + spec_encode_bytes(o.option_description)
}

/// The concatenated encodings of a list of options.
pub open spec fn spec_encode_options(s: Seq<VotingOptionV>) -> Seq<u8>
    decreases s.len(),
{
    if s.len() == 0 {
        Seq::empty()
    } else {
        spec_encode_option(s[0]) + spec_encode_options(s.drop_first())
    }
}

/// The encoding of a whole poll record: identifier, name, start, end, then
/// the option list with its count prefix.
pub open spec fn spec_encode_account(a: VotingAccountV) -> Seq<u8> {
    spec_encode_bytes(a.uid) + spec_encode_bytes(a.voting_name) + spec_encode_i64(a.start_date)
        + spec_encode_i64(a.end_date) + spec_u32_to_le_bytes(a.voting_options.len() as u32)
        + spec_encode_options(a.voting_options)
}

/// Whether every length in the record fits its `u32` prefix, so that the
/// record can be encoded at all.
pub open spec fn spec_encodable(a: VotingAccountV) -> bool {
    &&& a.uid.len() <= u32::MAX
    &&& a.voting_name.len() <= u32::MAX
    &&& a.voting_options.len() <= u32::MAX
    &&& forall|i: int|
        0 <= i < a.voting_options.len() ==> a.voting_options[i].option_description.len()
            <= u32::MAX
}

// ---------------------------------------------------------------------------
// Decoding, as a total function over byte sequences.
// ---------------------------------------------------------------------------
/// Reads one byte at `pos`.
pub open spec fn spec_take_u8(b: Seq<u8>, pos: int) -> Option<(u8, int)> {
    if 0 <= pos && pos + 1 <= b.len() {
        Some((b[pos], pos + 1))
    } else {
        None
    }
}

/// Reads a little-endian `u32` at `pos`.
pub open spec fn spec_take_u32(b: Seq<u8>, pos: int) -> Option<(u32, int)> {
    if 0 <= pos && pos + 4 <= b.len() {
        Some((spec_u32_from_le_bytes(b.subrange(pos, pos + 4)), pos + 4))
    } else {
        None
    }
}

/// Reads a little-endian `i64` at `pos`.
pub open spec fn spec_take_i64(b: Seq<u8>, pos: int) -> Option<(i64, int)> {
    if 0 <= pos && pos + 8 <= b.len() {
        Some((spec_u64_from_le_bytes(b.subrange(pos, pos + 8)) as i64, pos + 8))
    } else {
        None
    }
}

/// Whether a byte is a UTF-8 continuation byte.
pub open spec fn spec_is_cont(b: u8) -> bool {
    0x80 <= b && b <= 0xBF
}

/// Whether `s` is well-formed UTF-8: one to four bytes per scalar value,
/// with overlong forms, surrogates, and values past the last scalar value
/// excluded.
pub open spec fn spec_valid_utf8(s: Seq<u8>) -> bool
    decreases s.len(),
{
    if s.len() == 0 {
        true
    } else {
        let b0 = s[0];
        if b0 <= 0x7F {
            spec_valid_utf8(s.skip(1))
        } else if 0xC2 <= b0 && b0 <= 0xDF {
            s.len() >= 2 && spec_is_cont(s[1]) && spec_valid_utf8(s.skip(2))
        } else if b0 == 0xE0 {
            s.len() >= 3 && 0xA0 <= s[1] && s[1] <= 0xBF && spec_is_cont(s[2]) && spec_valid_utf8(
                s.skip(3),
            )
        } else if (0xE1 <= b0 && b0 <= 0xEC) || b0 == 0xEE || b0 == 0xEF {
            s.len() >= 3 && spec_is_cont(s[1]) && spec_is_cont(s[2]) && spec_valid_utf8(s.skip(3))
        } else if b0 == 0xED {
            s.len() >= 3 && 0x80 <= s[1] && s[1] <= 0x9F && spec_is_cont(s[2]) && spec_valid_utf8(
                s.skip(3),
            )
        } else if b0 == 0xF0 {
            s.len() >= 4 && 0x90 <= s[1] && s[1] <= 0xBF && spec_is_cont(s[2]) && spec_is_cont(
                s[3],
            ) && spec_valid_utf8(s.skip(4))
        } else if 0xF1 <= b0 && b0 <= 0xF3 {
            s.len() >= 4 && spec_is_cont(s[1]) && spec_is_cont(s[2]) && spec_is_cont(s[3])
                && spec_valid_utf8(s.skip(4))
        } else if b0 == 0xF4 {
            s.len() >= 4 && 0x80 <= s[1] && s[1] <= 0x8F && spec_is_cont(s[2]) && spec_is_cont(
                s[3],
            ) && spec_valid_utf8(s.skip(4))
        } else {
            false
        }
    }
}

/// Whether every string field of a record is well-formed UTF-8.
pub open spec fn spec_utf8_fields(a: VotingAccountV) -> bool {
    &&& spec_valid_utf8(a.uid)
    &&& spec_valid_utf8(a.voting_name)
    &&& forall|i: int|
        0 <= i < a.voting_options.len() ==> spec_valid_utf8(
            #[trigger] a.voting_options[i].option_description,
        )
}

/// Reads a length-prefixed UTF-8 string at `pos`; bytes that are not
/// well-formed UTF-8 do not fit the declared type and fail the read.
pub open spec fn spec_take_bytes(b: Seq<u8>, pos: int) -> Option<(Seq<u8>, int)> {
    match spec_take_u32(b, pos) {
        Some((n, p)) => if p + n <= b.len() && spec_valid_utf8(b.subrange(p, p + n)) {
            Some((b.subrange(p, p + n), p + n))
        } else {
            None
        },
        None => None,
    }
}

/// Reads one encoded option at `pos`.
pub open spec fn spec_take_option(b: Seq<u8>, pos: int) -> Option<(VotingOptionV, int)> {
    match spec_take_u32(b, pos) {
        Some((counter, p1)) => match spec_take_u8(b, p1) {
            Some((id, p2)) => match spec_take_bytes(b, p2) {
                Some((descr, p3)) => Some(
                    (
                        VotingOptionV { counter, option_id: id, option_description: descr },
                        p3,
                    ),
                ),
                None => None,
            },
            None => None,
        },
        None => None,
    }
}

/// Reads `n` encoded options in order starting at `pos`.
pub open spec fn spec_take_options(b: Seq<u8>, pos: int, n: int) -> Option<
    (Seq<VotingOptionV>, int),
>
    decreases n,
{
    if n <= 0 {
        Some((Seq::empty(), pos))
    } else {
        match spec_take_option(b, pos) {
            Some((o, p)) => match spec_take_options(b, p, n - 1) {
                Some((rest, p2)) => Some((seq![o] + rest, p2)),
                None => None,
            },
            None => None,
        }
    }
}

/// Reads every field of a poll record in declared order starting at `pos`.
pub open spec fn spec_take_account_fields(b: Seq<u8>, pos: int) -> Option<(VotingAccountV, int)> {
    match spec_take_bytes(b, pos) {
        Some((uid, p1)) => match spec_take_bytes(b, p1) {
            Some((name, p2)) => match spec_take_i64(b, p2) {
                Some((start, p3)) => match spec_take_i64(b, p3) {
                    Some((end, p4)) => match spec_take_u32(b, p4) {
                        Some((cnt, p5)) => match spec_take_options(b, p5, cnt as int) {
                            Some((opts, p6)) => Some(
                                (
                                    VotingAccountV {
                                        uid,
                                        voting_name: name,
                                        start_date: start,
                                        end_date: end,
                                        voting_options: opts,
                                    },
                                    p6,
                                ),
                            ),
                            None => None,
                        },
                        None => None,
                    },
                    None => None,
                },
                None => None,
            },
            None => None,
        },
        None => None,
    }
}

/// The poll record held in `b`, or `None` when `b` is not exactly one
/// encoded record: any truncation, bound overrun, or trailing garbage makes
/// the whole decode fail.
pub open spec fn spec_decode_account(b: Seq<u8>) -> Option<VotingAccountV> {
    match spec_take_account_fields(b, 0) {
        Some((a, p)) => if p == b.len() {
            Some(a)
        } else {
            None
        },
        None => None,
    }
}

// ---------------------------------------------------------------------------
// Structural lemmas about the encoding.
// ---------------------------------------------------------------------------
/// Appending one more option to a prefix extends its encoding by that
/// option's encoding.
pub proof fn lemma_encode_options_take_succ(s: Seq<VotingOptionV>, i: int)
    requires
        0 <= i < s.len(),
    ensures
        spec_encode_options(s.take(i + 1)) == spec_encode_options(s.take(i)) + spec_encode_option(
            s[i],
        ),
    decreases i,
{
    if i == 0 {
        assert(s.take(1) =~= seq![s[0]]);
        assert(s.take(0) =~= Seq::<VotingOptionV>::empty());
        assert(seq![s[0]].drop_first() =~= Seq::<VotingOptionV>::empty());
        assert(spec_encode_options(s.take(1)) =~= spec_encode_options(s.take(0))
            + spec_encode_option(s[0]));
    } else {
        let t = s.drop_first();
        lemma_encode_options_take_succ(t, i - 1);
        assert(s.take(i + 1).drop_first() =~= t.take(i));
        assert(s.take(i).drop_first() =~= t.take(i - 1));
        assert(s.take(i + 1)[0] == s[0]);
        assert(s.take(i)[0] == s[0]);
        assert(t[i - 1] == s[i]);
        assert(spec_encode_option(s[0]) + (spec_encode_options(t.take(i - 1))
            + spec_encode_option(s[i])) =~= (spec_encode_option(s[0]) + spec_encode_options(
            t.take(i - 1),
        )) + spec_encode_option(s[i]));
    }
}

/// An option list's encoding splits at any index into the encodings of its
/// prefix and its suffix.
pub proof fn lemma_encode_options_split(s: Seq<VotingOptionV>, i: int)
    requires
        0 <= i <= s.len(),
    ensures
        spec_encode_options(s) == spec_encode_options(s.take(i)) + spec_encode_options(s.skip(i)),
    decreases i,
{
    if i == 0 {
        assert(s.take(0) =~= Seq::<VotingOptionV>::empty());
        assert(s.skip(0) =~= s);
        assert(spec_encode_options(s.take(0)) + spec_encode_options(s) =~= spec_encode_options(s));
    } else {
        let t = s.drop_first();
        lemma_encode_options_split(t, i - 1);
        assert(s.take(i).drop_first() =~= t.take(i - 1));
        assert(s.take(i)[0] == s[0]);
        assert(s.skip(i) =~= t.skip(i - 1));
        assert(spec_encode_option(s[0]) + (spec_encode_options(t.take(i - 1))
            + spec_encode_options(t.skip(i - 1))) =~= (spec_encode_option(s[0])
            + spec_encode_options(t.take(i - 1))) + spec_encode_options(t.skip(i - 1)));
    }
}

/// An option list whose descriptions are bounded by `m` bytes encodes to at
/// most `9 + m` bytes per option.
pub proof fn lemma_encode_options_len_bound(s: Seq<VotingOptionV>, m: int)
    requires
        0 <= m,
        forall|i: int| 0 <= i < s.len() ==> s[i].option_description.len() <= m,
    ensures
        spec_encode_options(s).len() <= s.len() * (9 + m),
    decreases s.len(),
{
    lemma_auto_spec_u32_to_from_le_bytes();
    if s.len() == 0 {
    } else {
        let t = s.drop_first();
        assert forall|i: int| 0 <= i < t.len() implies t[i].option_description.len() <= m by {
            assert(t[i] == s[i + 1]);
        }
        lemma_encode_options_len_bound(t, m);
        assert(spec_encode_option(s[0]).len() == 9 + s[0].option_description.len());
        assert(t.len() * (9 + m) + (9 + m) == s.len() * (9 + m)) by (nonlinear_arith)
            requires
                t.len() == s.len() - 1,
                s.len() >= 1,
        ;
    }
}

/// Two option lists whose descriptions have the same lengths pointwise have
/// encodings of the same length.
pub proof fn lemma_encode_options_len_congruent(s1: Seq<VotingOptionV>, s2: Seq<VotingOptionV>)
    requires
        s1.len() == s2.len(),
        forall|i: int|
            0 <= i < s1.len() ==> s1[i].option_description.len()
                == s2[i].option_description.len(),
    ensures
        spec_encode_options(s1).len() == spec_encode_options(s2).len(),
    decreases s1.len(),
{
    lemma_auto_spec_u32_to_from_le_bytes();
    if s1.len() > 0 {
        let t1 = s1.drop_first();
        let t2 = s2.drop_first();
        assert forall|i: int| 0 <= i < t1.len() implies t1[i].option_description.len()
            == t2[i].option_description.len() by {
            assert(t1[i] == s1[i + 1]);
            assert(t2[i] == s2[i + 1]);
        }
        lemma_encode_options_len_congruent(t1, t2);
        assert(spec_encode_option(s1[0]).len() == 9 + s1[0].option_description.len());
        assert(spec_encode_option(s2[0]).len() == 9 + s2[0].option_description.len());
    }
}

// ---------------------------------------------------------------------------
// Decoding an encoding yields the original value.
// ---------------------------------------------------------------------------
proof fn lemma_take_u32_encoded(b: Seq<u8>, pos: int, x: u32)
    requires
        0 <= pos,
        pos + 4 <= b.len(),
        b.subrange(pos, pos + 4) == spec_u32_to_le_bytes(x),
    ensures
        spec_take_u32(b, pos) == Some((x, pos + 4)),
{
    lemma_auto_spec_u32_to_from_le_bytes();
    assert(spec_u32_to_le_bytes(x).len() == 4);
    assert(spec_u32_from_le_bytes(spec_u32_to_le_bytes(x)) == x);
}

proof fn lemma_take_i64_encoded(b: Seq<u8>, pos: int, x: i64)
    requires
        0 <= pos,
        pos + 8 <= b.len(),
        b.subrange(pos, pos + 8) == spec_encode_i64(x),
    ensures
        spec_take_i64(b, pos) == Some((x, pos + 8)),
{
    lemma_auto_spec_u64_to_from_le_bytes();
    assert(spec_u64_from_le_bytes(b.subrange(pos, pos + 8)) == x as u64);
    assert(((x as u64) as i64) == x) by (bit_vector);
}

proof fn lemma_take_bytes_encoded(b: Seq<u8>, pos: int, s: Seq<u8>)
    requires
        0 <= pos,
        s.len() <= u32::MAX,
        spec_valid_utf8(s),
        pos + 4 + s.len() <= b.len(),
        b.subrange(pos, pos + 4 + s.len()) == spec_encode_bytes(s),
    ensures
        spec_take_bytes(b, pos) == Some((s, pos + 4 + s.len())),
{
    lemma_auto_spec_u32_to_from_le_bytes();
    lemma_auto_spec_u64_to_from_le_bytes();
    let enc = spec_encode_bytes(s);
    assert(b.subrange(pos, pos + 4) =~= enc.subrange(0, 4));
    assert(enc.subrange(0, 4) =~= spec_u32_to_le_bytes(s.len() as u32));
    lemma_take_u32_encoded(b, pos, s.len() as u32);
    assert((s.len() as u32) as int == s.len());
    assert forall|k: int| 0 <= k < s.len() implies b.subrange(pos + 4, pos + 4 + s.len())[k]
        == s[k] by {
        assert(b.subrange(pos, pos + 4 + s.len())[4 + k] == spec_encode_bytes(s)[4 + k]);
    }
    assert(b.subrange(pos + 4, pos + 4 + s.len()) =~= s);
}

proof fn lemma_take_option_encoded(b: Seq<u8>, pos: int, o: VotingOptionV)
    requires
        0 <= pos,
        o.option_description.len() <= u32::MAX,
        spec_valid_utf8(o.option_description),
        pos + spec_encode_option(o).len() <= b.len(),
        b.subrange(pos, pos + spec_encode_option(o).len()) == spec_encode_option(o),
    ensures
        spec_take_option(b, pos) == Some((o, pos + spec_encode_option(o).len())),
{
    lemma_auto_spec_u32_to_from_le_bytes();
    lemma_auto_spec_u64_to_from_le_bytes();
    let enc = spec_encode_option(o);
    let dlen = o.option_description.len() as int;
    assert(enc.len() == 9 + dlen);
    assert(b.subrange(pos, pos + 4) =~= enc.subrange(0, 4));
    assert(enc.subrange(0, 4) =~= spec_u32_to_le_bytes(o.counter));
    lemma_take_u32_encoded(b, pos, o.counter);
    assert(b[pos + 4] == enc[4]);
    assert(enc[4] == o.option_id);
    assert(spec_take_u8(b, pos + 4) == Some((o.option_id, pos + 5)));
    assert(b.subrange(pos + 5, pos + 5 + 4 + dlen) =~= enc.subrange(5, enc.len() as int));
    assert(enc.subrange(5, enc.len() as int) =~= spec_encode_bytes(o.option_description));
    lemma_take_bytes_encoded(b, pos + 5, o.option_description);
}

proof fn lemma_take_options_encoded(b: Seq<u8>, pos: int, s: Seq<VotingOptionV>)
    requires
        0 <= pos,
        forall|i: int| 0 <= i < s.len() ==> s[i].option_description.len() <= u32::MAX,
        forall|i: int| 0 <= i < s.len() ==> spec_valid_utf8(#[trigger] s[i].option_description),
        pos + spec_encode_options(s).len() <= b.len(),
        b.subrange(pos, pos + spec_encode_options(s).len()) == spec_encode_options(s),
    ensures
        spec_take_options(b, pos, s.len() as int) == Some((s, pos + spec_encode_options(s).len())),
    decreases s.len(),
{
    lemma_auto_spec_u32_to_from_le_bytes();
    lemma_auto_spec_u64_to_from_le_bytes();
    if s.len() == 0 {
        assert(spec_take_options(b, pos, 0) == Some((Seq::<VotingOptionV>::empty(), pos)));
        assert(Seq::<VotingOptionV>::empty() =~= s);
    } else {
        let enc = spec_encode_options(s);
        let o = s[0];
        let l0 = spec_encode_option(o).len() as int;
        let rest = s.drop_first();
        assert(enc == spec_encode_option(o) + spec_encode_options(rest));
        assert(b.subrange(pos, pos + l0) =~= enc.subrange(0, l0));
        assert(enc.subrange(0, l0) =~= spec_encode_option(o));
        lemma_take_option_encoded(b, pos, o);
        assert(b.subrange(pos + l0, pos + l0 + spec_encode_options(rest).len()) =~= enc.subrange(
            l0,
            enc.len() as int,
        ));
        assert(enc.subrange(l0, enc.len() as int) =~= spec_encode_options(rest));
        assert forall|i: int| 0 <= i < rest.len() implies rest[i].option_description.len()
            <= u32::MAX && spec_valid_utf8(#[trigger] rest[i].option_description) by {
            assert(rest[i] == s[i + 1]);
        }
        lemma_take_options_encoded(b, pos + l0, rest);
        assert(seq![o] + rest =~= s);
    }
}

proof fn lemma_take_account_fields_encoded(b: Seq<u8>, pos: int, a: VotingAccountV)
    requires
        0 <= pos,
        spec_encodable(a),
        spec_utf8_fields(a),
        pos + spec_encode_account(a).len() <= b.len(),
        b.subrange(pos, pos + spec_encode_account(a).len()) == spec_encode_account(a),
    ensures
        spec_take_account_fields(b, pos) == Some((a, pos + spec_encode_account(a).len())),
{
    lemma_auto_spec_u32_to_from_le_bytes();
    lemma_auto_spec_u64_to_from_le_bytes();
    let enc = spec_encode_account(a);
    let ulen = a.uid.len() as int;
    let nlen = a.voting_name.len() as int;
    let olen = spec_encode_options(a.voting_options).len() as int;
    let p1 = pos + 4 + ulen;
    let p2 = p1 + 4 + nlen;
    let p3 = p2 + 8;
    let p4 = p3 + 8;
    let p5 = p4 + 4;
    let p6 = p5 + olen;
    assert(enc.len() == 4 + ulen + 4 + nlen + 8 + 8 + 4 + olen);
    assert(b.subrange(pos, p1) =~= enc.subrange(0, 4 + ulen));
    assert(enc.subrange(0, 4 + ulen) =~= spec_encode_bytes(a.uid));
    lemma_take_bytes_encoded(b, pos, a.uid);
    assert(b.subrange(p1, p2) =~= enc.subrange(4 + ulen, 4 + ulen + 4 + nlen));
    assert(enc.subrange(4 + ulen, 4 + ulen + 4 + nlen) =~= spec_encode_bytes(a.voting_name));
    lemma_take_bytes_encoded(b, p1, a.voting_name);
    assert(b.subrange(p2, p3) =~= enc.subrange(4 + ulen + 4 + nlen, 4 + ulen + 4 + nlen + 8));
    assert(enc.subrange(4 + ulen + 4 + nlen, 4 + ulen + 4 + nlen + 8) =~= spec_encode_i64(
        a.start_date,
    ));
    lemma_take_i64_encoded(b, p2, a.start_date);
    assert(b.subrange(p3, p4) =~= enc.subrange(
        4 + ulen + 4 + nlen + 8,
        4 + ulen + 4 + nlen + 16,
    ));
    assert(enc.subrange(4 + ulen + 4 + nlen + 8, 4 + ulen + 4 + nlen + 16) =~= spec_encode_i64(
        a.end_date,
    ));
    lemma_take_i64_encoded(b, p3, a.end_date);
    assert(b.subrange(p4, p5) =~= enc.subrange(
        4 + ulen + 4 + nlen + 16,
        4 + ulen + 4 + nlen + 20,
    ));
    assert(enc.subrange(4 + ulen + 4 + nlen + 16, 4 + ulen + 4 + nlen + 20)
        =~= spec_u32_to_le_bytes(a.voting_options.len() as u32));
    lemma_take_u32_encoded(b, p4, a.voting_options.len() as u32);
    assert((a.voting_options.len() as u32) as int == a.voting_options.len());
    assert(b.subrange(p5, p6) =~= enc.subrange(4 + ulen + 4 + nlen + 20, enc.len() as int));
    assert(enc.subrange(4 + ulen + 4 + nlen + 20, enc.len() as int) =~= spec_encode_options(
        a.voting_options,
    ));
    lemma_take_options_encoded(b, p5, a.voting_options);
}

/// Round trip: decoding the encoding of any encodable poll record whose
/// text fields are well-formed UTF-8 yields exactly that record, and the
/// decode consumes exactly the encoding's length.
pub proof fn lemma_round_trip(a: VotingAccountV)
    requires
        spec_encodable(a),
        spec_utf8_fields(a),
    ensures
        spec_decode_account(spec_encode_account(a)) == Some(a),
{
    let b = spec_encode_account(a);
    assert(b.subrange(0, b.len() as int) =~= b);
    lemma_take_account_fields_encoded(b, 0, a);
}

// ---------------------------------------------------------------------------
// Every successful decode reads back exactly one encoding: the consumed
// bytes are the encoding of the value read.
// ---------------------------------------------------------------------------
proof fn lemma_take_bytes_exact(b: Seq<u8>, pos: int)
    requires
        spec_take_bytes(b, pos) is Some,
    ensures
        ({
            let (s, p) = spec_take_bytes(b, pos).unwrap();
            &&& s.len() <= u32::MAX
            &&& spec_valid_utf8(s)
            &&& p == pos + 4 + s.len()
            &&& 0 <= pos
            &&& p <= b.len()
            &&& b.subrange(pos, p) == spec_encode_bytes(s)
        }),
{
    lemma_auto_spec_u32_to_from_le_bytes();
    let (s, p) = spec_take_bytes(b, pos).unwrap();
    let n = spec_u32_from_le_bytes(b.subrange(pos, pos + 4));
    assert(s.len() == n as int);
    assert((s.len() as u32) == n);
    assert(spec_u32_to_le_bytes(n) == b.subrange(pos, pos + 4));
    assert(b.subrange(pos, p) =~= spec_u32_to_le_bytes(s.len() as u32) + s);
}

proof fn lemma_take_i64_exact(b: Seq<u8>, pos: int)
    requires
        spec_take_i64(b, pos) is Some,
    ensures
        ({
            let (x, p) = spec_take_i64(b, pos).unwrap();
            &&& p == pos + 8
            &&& 0 <= pos
            &&& p <= b.len()
            &&& b.subrange(pos, p) == spec_encode_i64(x)
        }),
{
    lemma_auto_spec_u64_to_from_le_bytes();
    let u = spec_u64_from_le_bytes(b.subrange(pos, pos + 8));
    assert(((u as i64) as u64) == u) by (bit_vector);
    assert(spec_u64_to_le_bytes(u) == b.subrange(pos, pos + 8));
}

proof fn lemma_take_option_exact(b: Seq<u8>, pos: int)
    requires
        spec_take_option(b, pos) is Some,
    ensures
        ({
            let (o, p) = spec_take_option(b, pos).unwrap();
            &&& o.option_description.len() <= u32::MAX
            &&& spec_valid_utf8(o.option_description)
            &&& p == pos + spec_encode_option(o).len()
            &&& 0 <= pos
            &&& pos + 9 <= p <= b.len()
            &&& b.subrange(pos, p) == spec_encode_option(o)
        }),
{
    lemma_auto_spec_u32_to_from_le_bytes();
    let (o, p) = spec_take_option(b, pos).unwrap();
    assert(spec_u32_to_le_bytes(o.counter) == b.subrange(pos, pos + 4));
    lemma_take_bytes_exact(b, pos + 5);
    assert(b.subrange(pos + 5, p) == spec_encode_bytes(o.option_description));
    assert(b.subrange(pos, p) =~= spec_u32_to_le_bytes(o.counter) + seq![o.option_id]
        + spec_encode_bytes(o.option_description));
}

proof fn lemma_take_options_exact(b: Seq<u8>, pos: int, n: int)
    requires
        0 <= pos <= b.len(),
        spec_take_options(b, pos, n) is Some,
    ensures
        ({
            let (s, p) = spec_take_options(b, pos, n).unwrap();
            &&& s.len() == (if n >= 0 {
                n
            } else {
                0
            })
            &&& forall|i: int| 0 <= i < s.len() ==> s[i].option_description.len() <= u32::MAX
            &&& forall|i: int|
                0 <= i < s.len() ==> spec_valid_utf8(#[trigger] s[i].option_description)
            &&& p == pos + spec_encode_options(s).len()
            &&& pos <= p <= b.len()
            &&& b.subrange(pos, p) == spec_encode_options(s)
        }),
    decreases n,
{
    if n <= 0 {
        assert(b.subrange(pos, pos) =~= spec_encode_options(Seq::<VotingOptionV>::empty()));
    } else {
        let (o, p1) = spec_take_option(b, pos).unwrap();
        lemma_take_option_exact(b, pos);
        lemma_take_options_exact(b, p1, n - 1);
        let (rest, p) = spec_take_options(b, p1, n - 1).unwrap();
        let s = seq![o] + rest;
        assert(s.drop_first() =~= rest);
        assert(s[0] == o);
        assert(spec_encode_options(s) == spec_encode_option(o) + spec_encode_options(rest));
        assert(b.subrange(pos, p) =~= spec_encode_option(o) + spec_encode_options(rest));
    }
}

/// Every successful field parse reads back exactly one record encoding: the
/// value is encodable and the consumed bytes are its encoding.
proof fn lemma_take_account_fields_exact(b: Seq<u8>, pos: int)
    requires
        spec_take_account_fields(b, pos) is Some,
    ensures
        ({
            let (a, p) = spec_take_account_fields(b, pos).unwrap();
            &&& spec_encodable(a)
            &&& spec_utf8_fields(a)
            &&& p == pos + spec_encode_account(a).len()
            &&& 0 <= pos
            &&& pos <= p <= b.len()
            &&& b.subrange(pos, p) == spec_encode_account(a)
        }),
{
    lemma_auto_spec_u32_to_from_le_bytes();
    let (a, p) = spec_take_account_fields(b, pos).unwrap();
    let (uid, p1) = spec_take_bytes(b, pos).unwrap();
    let (name, p2) = spec_take_bytes(b, p1).unwrap();
    let (start, p3) = spec_take_i64(b, p2).unwrap();
    let (end, p4) = spec_take_i64(b, p3).unwrap();
    let (cnt, p5) = spec_take_u32(b, p4).unwrap();
    lemma_take_bytes_exact(b, pos);
    lemma_take_bytes_exact(b, p1);
    lemma_take_i64_exact(b, p2);
    lemma_take_i64_exact(b, p3);
    assert(spec_u32_to_le_bytes(cnt) == b.subrange(p4, p5));
    lemma_take_options_exact(b, p5, cnt as int);
    assert(a.voting_options.len() == cnt as int);
    assert((a.voting_options.len() as u32) == cnt);
    assert(b.subrange(pos, p) =~= spec_encode_bytes(uid) + spec_encode_bytes(name)
        + spec_encode_i64(start) + spec_encode_i64(end) + spec_u32_to_le_bytes(cnt)
        + spec_encode_options(a.voting_options));
}

/// A decoded record re-encodes to exactly the bytes it was decoded from.
pub proof fn lemma_decode_exact(b: Seq<u8>)
    requires
        spec_decode_account(b) is Some,
    ensures
        spec_encodable(spec_decode_account(b).unwrap()),
        spec_utf8_fields(spec_decode_account(b).unwrap()),
        spec_encode_account(spec_decode_account(b).unwrap()) == b,
{
    lemma_take_account_fields_exact(b, 0);
    let (a, p) = spec_take_account_fields(b, 0).unwrap();
    assert(b.subrange(0, b.len() as int) =~= b);
}

// ---------------------------------------------------------------------------
// Executable encoding.
// ---------------------------------------------------------------------------
/// The encoding of a record's five leading components: identifier, name,
/// window bounds, and the option count.
pub open spec fn spec_encode_prefix(a: VotingAccountV) -> Seq<u8> {
    spec_encode_bytes(a.uid) + spec_encode_bytes(a.voting_name) + spec_encode_i64(a.start_date)
        + spec_encode_i64(a.end_date) + spec_u32_to_le_bytes(a.voting_options.len() as u32)
}

fn encode_u32_into(out: &mut Vec<u8>, x: u32)
    ensures
        final(out)@ == old(out)@ + spec_u32_to_le_bytes(x),
{
    let mut tmp = u32_to_le_bytes(x);
    out.append(&mut tmp);
}

fn encode_i64_into(out: &mut Vec<u8>, x: i64)
    ensures
        final(out)@ == old(out)@ + spec_encode_i64(x),
{
    let mut tmp = u64_to_le_bytes(x as u64);
    out.append(&mut tmp);
}

fn encode_bytes_into(out: &mut Vec<u8>, s: &Vec<u8>)
    requires
        s@.len() <= u32::MAX,
    ensures
        final(out)@ == old(out)@ + spec_encode_bytes(s@),
{
    encode_u32_into(out, s.len() as u32);
    let mut tmp = crate::utils::clone_bytes(s);
    out.append(&mut tmp);
    proof {
        assert(final(out)@ =~= old(out)@ + spec_encode_bytes(s@));
    }
}

fn encode_option_into(out: &mut Vec<u8>, o: &VotingOption)
    requires
        o.option_description@.len() <= u32::MAX,
    ensures
        final(out)@ == old(out)@ + spec_encode_option(o@),
{
    encode_u32_into(out, o.counter);
    out.push(o.option_id);
    encode_bytes_into(out, &o.option_description);
    proof {
        assert(final(out)@ =~= old(out)@ + spec_encode_option(o@));
    }
}

impl VotingAccount {
    /// Encodes this record: every field in declared order, with length and
    /// count prefixes.
    pub fn encode(&self) -> (r: Vec<u8>)
        requires
            spec_encodable(self@),
        ensures
            r@ == spec_encode_account(self@),
    {
        let ghost a = self@;
        let mut out: Vec<u8> = Vec::new();
        encode_bytes_into(&mut out, &self.uid);
        encode_bytes_into(&mut out, &self.voting_name);
        encode_i64_into(&mut out, self.start_date);
        encode_i64_into(&mut out, self.end_date);
        encode_u32_into(&mut out, self.voting_options.len() as u32);
        proof {
            assert(out@ =~= spec_encode_prefix(a));
        }
        let ghost ov = a.voting_options;
        let n = self.voting_options.len();
        let mut i: usize = 0;
        while i < n
            invariant
                0 <= i <= n,
                n == self.voting_options@.len(),
                a == self@,
                ov == a.voting_options,
                spec_encodable(a),
                out@ == spec_encode_prefix(a) + spec_encode_options(ov.take(i as int)),
            decreases n - i,
        {
            proof {
                assert(ov[i as int] == self.voting_options@[i as int]@);
            }
            encode_option_into(&mut out, &self.voting_options[i]);
            proof {
                lemma_encode_options_take_succ(ov, i as int);
                assert(out@ =~= spec_encode_prefix(a) + spec_encode_options(
                    ov.take(i + 1 as int),
                ));
            }
            i += 1;
        }
        proof {
            assert(ov.take(n as int) =~= ov);
            assert(out@ =~= spec_encode_account(a));
        }
        out
    }

    /// Overwrites a buffer of exactly this record's encoded size with the
    /// record's encoding.
    pub fn encode_into(&self, buffer: &mut Vec<u8>)
        requires
            spec_encodable(self@),
            old(buffer)@.len() == spec_encode_account(self@).len(),
        ensures
            final(buffer)@ == spec_encode_account(self@),
    {
        let mut encoded = self.encode();
        buffer.clear();
        buffer.append(&mut encoded);
    }

    /// The exact length of this record's encoding, computed without
    /// materializing it.
    pub fn exact_size(&self) -> (r: usize)
        requires
            spec_encodable(self@),
            spec_encode_account(self@).len() <= usize::MAX,
        ensures
            r as int == spec_encode_account(self@).len(),
    {
        let ghost a = self@;
        let ghost total = spec_encode_account(a).len() as int;
        proof {
            lemma_auto_spec_u32_to_from_le_bytes();
            lemma_auto_spec_u64_to_from_le_bytes();
            lemma_encode_options_split(a.voting_options, 0);
            assert(spec_encode_prefix(a).len() == 28 + a.uid.len() + a.voting_name.len());
            assert(total == spec_encode_prefix(a).len() + spec_encode_options(
                a.voting_options,
            ).len());
        }
        let mut size: usize = 28;
        size += self.uid.len();
        size += self.voting_name.len();
        let ghost ov = a.voting_options;
        let n = self.voting_options.len();
        let mut i: usize = 0;
        proof {
            assert(ov.take(0) =~= Seq::<VotingOptionV>::empty());
        }
        while i < n
            invariant
                0 <= i <= n,
                n == self.voting_options@.len(),
                a == self@,
                ov == a.voting_options,
                spec_encodable(a),
                total == spec_encode_account(a).len(),
                total <= usize::MAX,
                total == spec_encode_prefix(a).len() + spec_encode_options(ov).len(),
                spec_encode_prefix(a).len() == 28 + a.uid.len() + a.voting_name.len(),
                size as int == spec_encode_prefix(a).len() + spec_encode_options(
                    ov.take(i as int),
                ).len(),
            decreases n - i,
        {
            proof {
                lemma_auto_spec_u32_to_from_le_bytes();
                assert(ov[i as int] == self.voting_options@[i as int]@);
                assert(spec_encode_option(ov[i as int]).len() == 9 + ov[i as int]
                    .option_description.len());
                lemma_encode_options_take_succ(ov, i as int);
                lemma_encode_options_split(ov, i + 1 as int);
            }
            size += 9;
            size += self.voting_options[i].option_description.len();
            i += 1;
        }
        proof {
            assert(ov.take(n as int) =~= ov);
        }
        size
    }
}

// ---------------------------------------------------------------------------
// Executable decoding.
// ---------------------------------------------------------------------------
fn take_u8_exec(b: &Vec<u8>, pos: usize) -> (r: Option<(u8, usize)>)
    ensures
        match r {
            Some(p) => spec_take_u8(b@, pos as int) == Some((p.0, p.1 as int)),
            None => spec_take_u8(b@, pos as int) is None,
        },
{
    if pos < b.len() {
        Some((b[pos], pos + 1))
    } else {
        None
    }
}

fn take_u32_exec(b: &Vec<u8>, pos: usize) -> (r: Option<(u32, usize)>)
    ensures
        match r {
            Some(p) => spec_take_u32(b@, pos as int) == Some((p.0, p.1 as int)),
            None => spec_take_u32(b@, pos as int) is None,
        },
{
    if pos <= b.len() && b.len() - pos >= 4 {
        let s = slice_subrange(b.as_slice(), pos, pos + 4);
        let x = u32_from_le_bytes(s);
        Some((x, pos + 4))
    } else {
        None
    }
}

fn take_i64_exec(b: &Vec<u8>, pos: usize) -> (r: Option<(i64, usize)>)
    ensures
        match r {
            Some(p) => spec_take_i64(b@, pos as int) == Some((p.0, p.1 as int)),
            None => spec_take_i64(b@, pos as int) is None,
        },
{
    if pos <= b.len() && b.len() - pos >= 8 {
        let s = slice_subrange(b.as_slice(), pos, pos + 8);
        let x = u64_from_le_bytes(s);
        Some((x as i64, pos + 8))
    } else {
        None
    }
}

/// Whether a byte is a UTF-8 continuation byte.
fn is_cont_byte(b: u8) -> (r: bool)
    ensures
        r == spec_is_cont(b),
{
    0x80 <= b && b <= 0xBF
}

/// Checks whether `v` is well-formed UTF-8, walking it one encoded scalar
/// value at a time.
pub fn is_valid_utf8(v: &Vec<u8>) -> (r: bool)
    ensures
        r == spec_valid_utf8(v@),
{
    let n = v.len();
    let mut i: usize = 0;
    proof {
        assert(v@.skip(0) =~= v@);
    }
    while i < n
        invariant
            0 <= i <= n,
            n == v@.len(),
            spec_valid_utf8(v@) == spec_valid_utf8(v@.skip(i as int)),
        decreases n - i,
    {
        let b0 = v[i];
        let ghost s = v@.skip(i as int);
        proof {
            assert(s[0] == v@[i as int]);
        }
        if b0 <= 0x7F {
            proof {
                assert(s.skip(1) =~= v@.skip(i as int + 1));
            }
            i += 1;
        } else if 0xC2 <= b0 && b0 <= 0xDF {
            let ok = n - i >= 2 && is_cont_byte(v[i + 1]);
            proof {
                if n - i >= 2 {
                    assert(s[1] == v@[i as int + 1]);
                }
                if ok {
                    assert(s.skip(2) =~= v@.skip(i as int + 2));
                } else {
                    assert(!spec_valid_utf8(s));
                }
            }
            if !ok {
                return false;
            }
            i += 2;
        } else if b0 == 0xE0 || ((0xE1 <= b0 && b0 <= 0xEC) || b0 == 0xEE || b0 == 0xEF) || b0
            == 0xED {
            let second_ok = if b0 == 0xE0 {
                n - i >= 2 && 0xA0 <= v[i + 1] && v[i + 1] <= 0xBF
            } else if b0 == 0xED {
                n - i >= 2 && 0x80 <= v[i + 1] && v[i + 1] <= 0x9F
            } else {
                n - i >= 2 && is_cont_byte(v[i + 1])
            };
            let ok = second_ok && n - i >= 3 && is_cont_byte(v[i + 2]);
            proof {
                if n - i >= 2 {
                    assert(s[1] == v@[i as int + 1]);
                }
                if n - i >= 3 {
                    assert(s[2] == v@[i as int + 2]);
                }
                if ok {
                    assert(s.skip(3) =~= v@.skip(i as int + 3));
                } else {
                    assert(!spec_valid_utf8(s));
                }
            }
            if !ok {
                return false;
            }
            i += 3;
        } else if b0 == 0xF0 || (0xF1 <= b0 && b0 <= 0xF3) || b0 == 0xF4 {
            let second_ok = if b0 == 0xF0 {
                n - i >= 2 && 0x90 <= v[i + 1] && v[i + 1] <= 0xBF
            } else if b0 == 0xF4 {
                n - i >= 2 && 0x80 <= v[i + 1] && v[i + 1] <= 0x8F
            } else {
                n - i >= 2 && is_cont_byte(v[i + 1])
            };
            let ok = second_ok && n - i >= 4 && is_cont_byte(v[i + 2]) && is_cont_byte(v[i + 3]);
            proof {
                if n - i >= 2 {
                    assert(s[1] == v@[i as int + 1]);
                }
                if n - i >= 3 {
                    assert(s[2] == v@[i as int + 2]);
                }
                if n - i >= 4 {
                    assert(s[3] == v@[i as int + 3]);
                }
                if ok {
                    assert(s.skip(4) =~= v@.skip(i as int + 4));
                } else {
                    assert(!spec_valid_utf8(s));
                }
            }
            if !ok {
                return false;
            }
            i += 4;
        } else {
            proof {
                assert(!spec_valid_utf8(s));
            }
            return false;
        }
    }
    proof {
        assert(v@.skip(n as int) =~= Seq::<u8>::empty());
    }
    true
}

fn take_bytes_exec(b: &Vec<u8>, pos: usize) -> (r: Option<(Vec<u8>, usize)>)
    ensures
        match r {
            Some(p) => spec_take_bytes(b@, pos as int) == Some((p.0@, p.1 as int)),
            None => spec_take_bytes(b@, pos as int) is None,
        },
{
    match take_u32_exec(b, pos) {
        None => None,
        Some((n, p)) => {
            let nn = n as usize;
            if nn <= b.len() - p {
                let s = slice_to_vec(slice_subrange(b.as_slice(), p, p + nn));
                if is_valid_utf8(&s) {
                    Some((s, p + nn))
                } else {
                    None
                }
            } else {
                None
            }
        },
    }
}

fn take_option_exec(b: &Vec<u8>, pos: usize) -> (r: Option<(VotingOption, usize)>)
    ensures
        match r {
            Some(p) => spec_take_option(b@, pos as int) == Some((p.0@, p.1 as int)),
            None => spec_take_option(b@, pos as int) is None,
        },
{
    match take_u32_exec(b, pos) {
        None => None,
        Some((counter, p1)) => match take_u8_exec(b, p1) {
            None => None,
            Some((id, p2)) => match take_bytes_exec(b, p2) {
                None => None,
                Some((descr, p3)) => Some(
                    (
                        VotingOption {
                            counter,
                            option_id: id,
                            option_description: descr,
                        },
                        p3,
                    ),
                ),
            },
        },
    }
}

fn take_options_exec(b: &Vec<u8>, pos: usize, n: u32) -> (r: Option<(Vec<VotingOption>, usize)>)
    ensures
        match r {
            Some(p) => spec_take_options(b@, pos as int, n as int) == Some(
                (spec_options_view(p.0@), p.1 as int),
            ),
            None => spec_take_options(b@, pos as int, n as int) is None,
        },
{
    let mut opts: Vec<VotingOption> = Vec::new();
    let mut cur: usize = pos;
    let mut k: u32 = 0;
    proof {
        assert(spec_options_view(opts@) =~= Seq::<VotingOptionV>::empty());
    }
    while k < n
        invariant
            0 <= k <= n,
            spec_take_options(b@, pos as int, n as int) == (match spec_take_options(
                b@,
                cur as int,
                (n - k) as int,
            ) {
                Some((rest, e)) => Some((spec_options_view(opts@) + rest, e)),
                None => None,
            }),
        decreases n - k,
    {
        match take_option_exec(b, cur) {
            None => {
                proof {
                    assert(spec_take_options(b@, cur as int, (n - k) as int) is None);
                }
                return None;
            },
            Some((o, p)) => {
                let ghost old_opts = opts@;
                opts.push(o);
                proof {
                    assert(spec_options_view(opts@) =~= spec_options_view(old_opts) + seq![o@]);
                    assert forall|rest: Seq<VotingOptionV>|
                        true implies (spec_options_view(old_opts) + (seq![o@] + rest))
                        =~= (spec_options_view(opts@) + rest) by {}
                }
                cur = p;
                k += 1;
            },
        }
    }
    proof {
        assert(spec_take_options(b@, cur as int, 0) == Some((Seq::<VotingOptionV>::empty(), cur as int)));
        assert(spec_options_view(opts@) + Seq::<VotingOptionV>::empty() =~= spec_options_view(
            opts@,
        ));
    }
    Some((opts, cur))
}

/// Reads every record field in order starting at `start`, as the typed
/// record plus the position just past it.
pub(crate) fn take_account_fields_exec(b: &Vec<u8>, start: usize) -> (r: Result<
    (VotingAccount, usize),
    VoteProgramError,
>)
    ensures
        match r {
            Ok(p) => spec_take_account_fields(b@, start as int) == Some((p.0@, p.1 as int)),
            Err(e) => spec_take_account_fields(b@, start as int) is None && e
                == VoteProgramError::MalformedInput,
        },
{
    let (uid, p1) = match take_bytes_exec(b, start) {
        Some(x) => x,
        None => {
            return Err(VoteProgramError::MalformedInput);
        },
    };
    let (name, p2) = match take_bytes_exec(b, p1) {
        Some(x) => x,
        None => {
            return Err(VoteProgramError::MalformedInput);
        },
    };
    let (start_date, p3) = match take_i64_exec(b, p2) {
        Some(x) => x,
        None => {
            return Err(VoteProgramError::MalformedInput);
        },
    };
    let (end_date, p4) = match take_i64_exec(b, p3) {
        Some(x) => x,
        None => {
            return Err(VoteProgramError::MalformedInput);
        },
    };
    let (cnt, p5) = match take_u32_exec(b, p4) {
        Some(x) => x,
        None => {
            return Err(VoteProgramError::MalformedInput);
        },
    };
    let (opts, p6) = match take_options_exec(b, p5, cnt) {
        Some(x) => x,
        None => {
            return Err(VoteProgramError::MalformedInput);
        },
    };
    let acc = VotingAccount {
        uid,
        voting_name: name,
        start_date,
        end_date,
        voting_options: opts,
    };
    proof {
        let (av, pv) = spec_take_account_fields(b@, start as int).unwrap();
        assert(acc@ =~= av);
    }
    Ok((acc, p6))
}

impl VotingAccount {
    /// Decodes a stored record from `data`, which must hold exactly one
    /// encoded record; fails on any truncation, bound overrun, or trailing
    /// garbage.
    pub fn decode(data: &Vec<u8>) -> (r: Result<VotingAccount, VoteProgramError>)
        ensures
            match r {
                Ok(a) => spec_decode_account(data@) == Some(a@),
                Err(e) => spec_decode_account(data@) is None && e
                    == VoteProgramError::MalformedInput,
            },
    {
        match take_account_fields_exec(data, 0) {
            Err(e) => Err(e),
            Ok((acc, p)) => {
                if p == data.len() {
                    Ok(acc)
                } else {
                    Err(VoteProgramError::MalformedInput)
                }
            },
        }
    }
}

} // verus!
