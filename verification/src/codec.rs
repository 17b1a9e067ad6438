//! A binary serialization of witnesses, with a proved round trip.
//!
//! Every integer is 8 bytes little-endian; every list is its length as a
//! 64-bit integer followed by its elements. Decoding is strict: trailing
//! bytes are rejected.

use vstd::prelude::*;
use vstd::bytes::{
    lemma_auto_spec_u64_to_from_le_bytes, spec_u64_from_le_bytes, spec_u64_to_le_bytes,
    u64_from_le_bytes, u64_to_le_bytes,
};
use vstd::slice::{slice_subrange, slice_to_vec};
use crate::errors::CodecError;
use crate::witness::{AccountChange, AccountChangeView, Witness, WitnessView};

verus! {

// ---------------------------------------------------------------------------
// Encoding, at the specification level
// ---------------------------------------------------------------------------
/// One 64-bit word, little-endian.
pub open spec fn spec_encode_u64(x: u64) -> Seq<u8> {
    spec_u64_to_le_bytes(x)
}

/// A byte block: its length as a word, then the raw bytes.
pub open spec fn spec_encode_block(b: Seq<u8>) -> Seq<u8> {
    spec_encode_u64(b.len() as u64) + b
}

/// Each element of a list in order, under the element encoder `f`.
pub open spec fn spec_encode_each<T>(s: Seq<T>, f: spec_fn(T) -> Seq<u8>) -> Seq<u8>
    decreases s.len(),
{
    if s.len() == 0 {
        Seq::empty()
    } else {
        f(s[0]) + spec_encode_each(s.drop_first(), f)
    }
}

/// The element encoder for 64-bit words.
pub open spec fn word_enc() -> spec_fn(u64) -> Seq<u8> {
    |x: u64| spec_encode_u64(x)
}

/// The element encoder for byte blocks.
pub open spec fn block_enc() -> spec_fn(Seq<u8>) -> Seq<u8> {
    |b: Seq<u8>| spec_encode_block(b)
}

/// A list of 64-bit words: its length as a word, then the words.
pub open spec fn spec_encode_words(v: Seq<u64>) -> Seq<u8> {
    spec_encode_u64(v.len() as u64) + spec_encode_each(v, word_enc())
}

/// The element encoder for word lists.
pub open spec fn words_enc() -> spec_fn(Seq<u64>) -> Seq<u8> {
    |v: Seq<u64>| spec_encode_words(v)
}

/// A list of word lists.
pub open spec fn spec_encode_word_lists(v: Seq<Seq<u64>>) -> Seq<u8> {
    spec_encode_u64(v.len() as u64) + spec_encode_each(v, words_enc())
}

/// A list of byte blocks.
pub open spec fn spec_encode_blocks(v: Seq<Seq<u8>>) -> Seq<u8> {
    spec_encode_u64(v.len() as u64) + spec_encode_each(v, block_enc())
}

/// One account change: three byte blocks, then the two balances.
pub open spec fn spec_encode_account_change(c: AccountChangeView) -> Seq<u8> {
    spec_encode_block(c.pubkey) + spec_encode_block(c.data_before) + spec_encode_block(c.data_after)
        + spec_encode_u64(c.lamports_before) + spec_encode_u64(c.lamports_after)
}

/// The element encoder for account changes.
pub open spec fn account_enc() -> spec_fn(AccountChangeView) -> Seq<u8> {
    |c: AccountChangeView| spec_encode_account_change(c)
}

/// A list of account changes.
pub open spec fn spec_encode_account_changes(v: Seq<AccountChangeView>) -> Seq<u8> {
    spec_encode_u64(v.len() as u64) + spec_encode_each(v, account_enc())
}

/// A whole witness: its six fields in declaration order.
pub open spec fn spec_encode_witness(w: WitnessView) -> Seq<u8> {
    spec_encode_words(w.initial_registers) + spec_encode_word_lists(w.instruction_register_states)
        + spec_encode_words(w.final_registers) + spec_encode_words(w.program_counters)
        + spec_encode_blocks(w.instruction_bytes) + spec_encode_account_changes(w.account_changes)
}

// ---------------------------------------------------------------------------
// Decoding, at the specification level
// ---------------------------------------------------------------------------
/// Decode one word at `pos`; `None` when fewer than 8 bytes remain.
pub open spec fn spec_decode_u64(s: Seq<u8>, pos: int) -> Option<(u64, int)> {
    if 0 <= pos && pos + 8 <= s.len() {
        Some((spec_u64_from_le_bytes(s.subrange(pos, pos + 8)), pos + 8))
    } else {
        None
    }
}

/// Decode one byte block at `pos`.
pub open spec fn spec_decode_block(s: Seq<u8>, pos: int) -> Option<(Seq<u8>, int)> {
    match spec_decode_u64(s, pos) {
        None => None,
        Some((n, p)) => if p + n <= s.len() {
            Some((s.subrange(p, p + n), p + n))
        } else {
            None
        },
    }
}

/// Decode `count` elements at `pos` under the element decoder `f`.
pub open spec fn spec_decode_each<T>(
    s: Seq<u8>,
    pos: int,
    count: nat,
    f: spec_fn(Seq<u8>, int) -> Option<(T, int)>,
) -> Option<(Seq<T>, int)>
    decreases count,
{
    if count == 0 {
        Some((Seq::empty(), pos))
    } else {
        match f(s, pos) {
            None => None,
            Some((t, p)) => match spec_decode_each(s, p, (count - 1) as nat, f) {
                None => None,
                Some((ts, e)) => Some((seq![t] + ts, e)),
            },
        }
    }
}

/// The element decoder for 64-bit words.
pub open spec fn word_dec() -> spec_fn(Seq<u8>, int) -> Option<(u64, int)> {
    |s: Seq<u8>, pos: int| spec_decode_u64(s, pos)
}

/// The element decoder for byte blocks.
pub open spec fn block_dec() -> spec_fn(Seq<u8>, int) -> Option<(Seq<u8>, int)> {
    |s: Seq<u8>, pos: int| spec_decode_block(s, pos)
}

/// Decode a list of words at `pos`.
pub open spec fn spec_decode_words(s: Seq<u8>, pos: int) -> Option<(Seq<u64>, int)> {
    match spec_decode_u64(s, pos) {
        None => None,
        Some((n, p)) => spec_decode_each(s, p, n as nat, word_dec()),
    }
}

/// The element decoder for word lists.
pub open spec fn words_dec() -> spec_fn(Seq<u8>, int) -> Option<(Seq<u64>, int)> {
    |s: Seq<u8>, pos: int| spec_decode_words(s, pos)
}

/// Decode a list of word lists at `pos`.
pub open spec fn spec_decode_word_lists(s: Seq<u8>, pos: int) -> Option<(Seq<Seq<u64>>, int)> {
    match spec_decode_u64(s, pos) {
        None => None,
        Some((n, p)) => spec_decode_each(s, p, n as nat, words_dec()),
    }
}

/// Decode a list of byte blocks at `pos`.
pub open spec fn spec_decode_blocks(s: Seq<u8>, pos: int) -> Option<(Seq<Seq<u8>>, int)> {
    match spec_decode_u64(s, pos) {
        None => None,
        Some((n, p)) => spec_decode_each(s, p, n as nat, block_dec()),
    }
}

/// Decode one account change at `pos`.
pub open spec fn spec_decode_account_change(s: Seq<u8>, pos: int) -> Option<
    (AccountChangeView, int),
> {
    match spec_decode_block(s, pos) {
        None => None,
        Some((pubkey, p1)) => match spec_decode_block(s, p1) {
            None => None,
            Some((data_before, p2)) => match spec_decode_block(s, p2) {
                None => None,
                Some((data_after, p3)) => match spec_decode_u64(s, p3) {
                    None => None,
                    Some((lamports_before, p4)) => match spec_decode_u64(s, p4) {
                        None => None,
                        Some((lamports_after, p5)) => Some(
                            (
                                AccountChangeView {
                                    pubkey,
                                    data_before,
                                    data_after,
                                    lamports_before,
                                    lamports_after,
                                },
                                p5,
                            ),
                        ),
                    },
                },
            },
        },
    }
}

/// The element decoder for account changes.
pub open spec fn account_dec() -> spec_fn(Seq<u8>, int) -> Option<(AccountChangeView, int)> {
    |s: Seq<u8>, pos: int| spec_decode_account_change(s, pos)
}

/// Decode a list of account changes at `pos`.
pub open spec fn spec_decode_account_changes(s: Seq<u8>, pos: int) -> Option<
    (Seq<AccountChangeView>, int),
> {
    match spec_decode_u64(s, pos) {
        None => None,
        Some((n, p)) => spec_decode_each(s, p, n as nat, account_dec()),
    }
}

/// Decode a whole witness. The buffer must hold exactly one witness:
/// trailing bytes are rejected.
pub open spec fn spec_decode_witness(s: Seq<u8>) -> Option<WitnessView> {
    match spec_decode_words(s, 0) {
        None => None,
        Some((initial_registers, p1)) => match spec_decode_word_lists(s, p1) {
            None => None,
            Some((instruction_register_states, p2)) => match spec_decode_words(s, p2) {
                None => None,
                Some((final_registers, p3)) => match spec_decode_words(s, p3) {
                    None => None,
                    Some((program_counters, p4)) => match spec_decode_blocks(s, p4) {
                        None => None,
                        Some((instruction_bytes, p5)) => match spec_decode_account_changes(
                            s,
                            p5,
                        ) {
                            None => None,
                            Some((account_changes, p6)) => if p6 == s.len() {
                                Some(
                                    WitnessView {
                                        initial_registers,
                                        instruction_register_states,
                                        final_registers,
                                        program_counters,
                                        instruction_bytes,
                                        account_changes,
                                    },
                                )
                            } else {
                                None
                            },
                        },
                    },
                },
            },
        },
    }
}

// ---------------------------------------------------------------------------
// Size bounds under which the round trip holds
// ---------------------------------------------------------------------------
/// Length fields are 64-bit: a list longer than that cannot be written.
pub open spec fn words_size_ok(v: Seq<u64>) -> bool {
    v.len() <= u64::MAX
}

/// Size bound for a list of word lists.
pub open spec fn word_lists_size_ok(v: Seq<Seq<u64>>) -> bool {
    &&& v.len() <= u64::MAX
    &&& forall|i: int| 0 <= i < v.len() ==> (#[trigger] v[i]).len() <= u64::MAX
}

/// Size bound for a list of byte blocks.
pub open spec fn blocks_size_ok(v: Seq<Seq<u8>>) -> bool {
    &&& v.len() <= u64::MAX
    &&& forall|i: int| 0 <= i < v.len() ==> (#[trigger] v[i]).len() <= u64::MAX
}

/// Size bound for one account change.
pub open spec fn account_change_size_ok(c: AccountChangeView) -> bool {
    &&& c.pubkey.len() <= u64::MAX
    &&& c.data_before.len() <= u64::MAX
    &&& c.data_after.len() <= u64::MAX
}

/// Size bound for a list of account changes.
pub open spec fn account_changes_size_ok(v: Seq<AccountChangeView>) -> bool {
    &&& v.len() <= u64::MAX
    &&& forall|i: int| 0 <= i < v.len() ==> account_change_size_ok(#[trigger] v[i])
}

/// A witness is well formed for serialization when every list it holds can
/// carry its length in a 64-bit field. Every witness held in memory
/// satisfies this: vector lengths are machine words.
pub open spec fn witness_size_ok(w: WitnessView) -> bool {
    &&& words_size_ok(w.initial_registers)
    &&& word_lists_size_ok(w.instruction_register_states)
    &&& words_size_ok(w.final_registers)
    &&& words_size_ok(w.program_counters)
    &&& blocks_size_ok(w.instruction_bytes)
    &&& account_changes_size_ok(w.account_changes)
}

// ---------------------------------------------------------------------------
// Round-trip lemmas
// ---------------------------------------------------------------------------
/// Decoding a word reads back what encoding wrote.
pub proof fn lemma_u64_of_encode(s: Seq<u8>, pos: int, x: u64)
    requires
        0 <= pos,
        pos + 8 <= s.len(),
        s.subrange(pos, pos + 8) == spec_encode_u64(x),
    ensures
        spec_decode_u64(s, pos) == Some((x, pos + 8)),
{
    lemma_auto_spec_u64_to_from_le_bytes();
}

/// A window inside a window of `s` known to equal `whole` equals the same
/// window of `whole`.
pub proof fn lemma_subrange_of_eq(s: Seq<u8>, pos: int, whole: Seq<u8>, a: int, b: int)
    requires
        0 <= pos,
        pos + whole.len() <= s.len(),
        s.subrange(pos, pos + whole.len()) == whole,
        0 <= a <= b <= whole.len(),
    ensures
        s.subrange(pos + a, pos + b) == whole.subrange(a, b),
{
    assert forall|j: int| 0 <= j < b - a implies s.subrange(pos + a, pos + b)[j] == whole.subrange(
        a,
        b,
    )[j] by {
        assert(s.subrange(pos, pos + whole.len())[a + j] == whole[a + j]);
    }
    assert(s.subrange(pos + a, pos + b) =~= whole.subrange(a, b));
}

/// Decoding a block reads back what encoding wrote.
pub proof fn lemma_block_of_encode(s: Seq<u8>, pos: int, b: Seq<u8>)
    requires
        b.len() <= u64::MAX,
        0 <= pos,
        pos + spec_encode_block(b).len() <= s.len(),
        s.subrange(pos, pos + spec_encode_block(b).len()) == spec_encode_block(b),
    ensures
        spec_decode_block(s, pos) == Some((b, pos + spec_encode_block(b).len())),
{
    lemma_auto_spec_u64_to_from_le_bytes();
    let whole = spec_encode_block(b);
    let lenb = spec_encode_u64(b.len() as u64);
    assert(whole.len() == 8 + b.len());
    lemma_subrange_of_eq(s, pos, whole, 0, 8);
    assert(whole.subrange(0, 8) =~= lenb);
    lemma_u64_of_encode(s, pos, b.len() as u64);
    lemma_subrange_of_eq(s, pos, whole, 8, whole.len() as int);
    assert(whole.subrange(8, whole.len() as int) =~= b);
}

/// When every successful element decode in `s` lands at least 8 bytes
/// further and within the buffer, a successful list decode yields exactly
/// `count` elements and also stays within the buffer.
pub proof fn lemma_decode_each_props<T>(
    s: Seq<u8>,
    pos: int,
    count: nat,
    f: spec_fn(Seq<u8>, int) -> Option<(T, int)>,
)
    requires
        forall|p2: int| #[trigger] f(s, p2) matches Some(r) ==> 0 <= p2 && p2 + 8 <= r.1 && r.1
            <= s.len(),
    ensures
        spec_decode_each(s, pos, count, f) matches Some(r) ==> r.0.len() == count && (count > 0
            ==> 0 <= pos && pos + 8 * count <= r.1 && r.1 <= s.len()) && (count == 0 ==> r.1
            == pos),
    decreases count,
{
    if count > 0 {
        match f(s, pos) {
            None => {},
            Some((t, p)) => {
                lemma_decode_each_props(s, p, (count - 1) as nat, f);
            },
        }
    }
}

/// Decoding `count` elements reads back what encoding each of them wrote.
pub proof fn lemma_decode_each_of_encode<T>(
    s: Seq<u8>,
    pos: int,
    vals: Seq<T>,
    fe: spec_fn(T) -> Seq<u8>,
    fd: spec_fn(Seq<u8>, int) -> Option<(T, int)>,
)
    requires
        0 <= pos,
        pos + spec_encode_each(vals, fe).len() <= s.len(),
        s.subrange(pos, pos + spec_encode_each(vals, fe).len()) == spec_encode_each(vals, fe),
        forall|i: int, p2: int|
            #![trigger fd(s, p2), fe(vals[i])]
            0 <= i < vals.len() && 0 <= p2 && p2 + fe(vals[i]).len() <= s.len() && s.subrange(
                p2,
                p2 + fe(vals[i]).len(),
            ) == fe(vals[i]) ==> fd(s, p2) == Some((vals[i], p2 + fe(vals[i]).len())),
    ensures
        spec_decode_each(s, pos, vals.len() as nat, fd) == Some(
            (vals, pos + spec_encode_each(vals, fe).len()),
        ),
    decreases vals.len(),
{
    if vals.len() == 0 {
        assert(vals =~= Seq::<T>::empty());
        assert(spec_encode_each(vals, fe) =~= Seq::<u8>::empty());
    } else {
        let whole = spec_encode_each(vals, fe);
        let e0 = fe(vals[0]);
        let tail = vals.drop_first();
        let rest = spec_encode_each(tail, fe);
        assert(whole == e0 + rest);
        assert(whole.len() == e0.len() + rest.len());
        lemma_subrange_of_eq(s, pos, whole, 0, e0.len() as int);
        assert(whole.subrange(0, e0.len() as int) =~= e0);
        assert(fd(s, pos) == Some((vals[0], pos + e0.len())));
        let p = pos + e0.len();
        lemma_subrange_of_eq(s, pos, whole, e0.len() as int, whole.len() as int);
        assert(whole.subrange(e0.len() as int, whole.len() as int) =~= rest);
        assert forall|i: int, p2: int|
            #![trigger fd(s, p2), fe(tail[i])]
            0 <= i < tail.len() && 0 <= p2 && p2 + fe(tail[i]).len() <= s.len() && s.subrange(
                p2,
                p2 + fe(tail[i]).len(),
            ) == fe(tail[i]) implies fd(s, p2) == Some((tail[i], p2 + fe(tail[i]).len())) by {
            assert(tail[i] == vals[i + 1]);
            assert(fe(vals[i + 1]) == fe(tail[i]));
        }
        lemma_decode_each_of_encode(s, p, tail, fe, fd);
        assert(seq![vals[0]] + tail =~= vals);
        assert(spec_decode_each(s, pos, vals.len() as nat, fd) == Some(
            (seq![vals[0]] + tail, p + rest.len()),
        ));
    }
}

/// Appending an element to a list appends its encoding.
pub proof fn lemma_encode_each_push<T>(s: Seq<T>, x: T, f: spec_fn(T) -> Seq<u8>)
    ensures
        spec_encode_each(s.push(x), f) == spec_encode_each(s, f) + f(x),
    decreases s.len(),
{
    if s.len() == 0 {
        assert(s.push(x).drop_first() =~= Seq::<T>::empty());
        assert(s.push(x)[0] == x);
        assert(spec_encode_each(s.push(x), f) == f(x) + spec_encode_each(
            Seq::<T>::empty(),
            f,
        ));
        assert(f(x) + Seq::<u8>::empty() =~= f(x));
        assert(spec_encode_each(s, f) == Seq::<u8>::empty());
        assert(Seq::<u8>::empty() + f(x) =~= f(x));
    } else {
        assert(s.push(x).drop_first() =~= s.drop_first().push(x));
        lemma_encode_each_push(s.drop_first(), x, f);
        assert(s.push(x)[0] == s[0]);
        assert(spec_encode_each(s.push(x), f) == f(s[0]) + spec_encode_each(
            s.drop_first().push(x),
            f,
        ));
        assert(spec_encode_each(s, f) == f(s[0]) + spec_encode_each(s.drop_first(), f));
        assert((f(s[0]) + spec_encode_each(s.drop_first(), f)) + f(x) =~= f(s[0]) + (
        spec_encode_each(s.drop_first(), f) + f(x)));
    }
}

/// A successful word decode lands exactly 8 bytes further.
pub proof fn lemma_word_dec_bounds(s: Seq<u8>)
    ensures
        forall|p2: int| #[trigger] (word_dec())(s, p2) matches Some(r) ==> 0 <= p2 && p2 + 8 <= r.1
            && r.1 <= s.len(),
{
}

/// A successful block decode lands at least 8 bytes further, within the
/// buffer.
pub proof fn lemma_block_dec_bounds(s: Seq<u8>)
    ensures
        forall|p2: int| #[trigger] (block_dec())(s, p2) matches Some(r) ==> 0 <= p2 && p2 + 8
            <= r.1 && r.1 <= s.len(),
{
}

/// A successful word-list decode lands at least 8 bytes further, within
/// the buffer.
pub proof fn lemma_words_dec_bounds(s: Seq<u8>)
    ensures
        forall|p2: int| #[trigger] (words_dec())(s, p2) matches Some(r) ==> 0 <= p2 && p2 + 8
            <= r.1 && r.1 <= s.len(),
{
    assert forall|p2: int| (#[trigger] (words_dec())(s, p2)) is Some implies 0 <= p2 && p2 + 8
        <= ((words_dec())(s, p2))->Some_0.1 && ((words_dec())(s, p2))->Some_0.1 <= s.len() by {
        match spec_decode_u64(s, p2) {
            None => {},
            Some((n, p)) => {
                lemma_word_dec_bounds(s);
                lemma_decode_each_props(s, p, n as nat, word_dec());
            },
        }
    }
}

/// A successful account-change decode lands at least 8 bytes further,
/// within the buffer.
pub proof fn lemma_account_dec_bounds(s: Seq<u8>)
    ensures
        forall|p2: int| #[trigger] (account_dec())(s, p2) matches Some(r) ==> 0 <= p2 && p2 + 8
            <= r.1 && r.1 <= s.len(),
{
}

/// Decoding a word list reads back what encoding wrote.
pub proof fn lemma_words_of_encode(s: Seq<u8>, pos: int, v: Seq<u64>)
    requires
        words_size_ok(v),
        0 <= pos,
        pos + spec_encode_words(v).len() <= s.len(),
        s.subrange(pos, pos + spec_encode_words(v).len()) == spec_encode_words(v),
    ensures
        spec_decode_words(s, pos) == Some((v, pos + spec_encode_words(v).len())),
{
    lemma_auto_spec_u64_to_from_le_bytes();
    let whole = spec_encode_words(v);
    let each = spec_encode_each(v, word_enc());
    assert(whole.len() == 8 + each.len());
    lemma_subrange_of_eq(s, pos, whole, 0, 8);
    assert(whole.subrange(0, 8) =~= spec_encode_u64(v.len() as u64));
    lemma_u64_of_encode(s, pos, v.len() as u64);
    lemma_subrange_of_eq(s, pos, whole, 8, whole.len() as int);
    assert(whole.subrange(8, whole.len() as int) =~= each);
    assert forall|i: int, p2: int|
        #![trigger (word_dec())(s, p2), (word_enc())(v[i])]
        0 <= i < v.len() && 0 <= p2 && p2 + (word_enc())(v[i]).len() <= s.len() && s.subrange(
            p2,
            p2 + (word_enc())(v[i]).len(),
        ) == (word_enc())(v[i]) implies (word_dec())(s, p2) == Some(
        (v[i], p2 + (word_enc())(v[i]).len()),
    ) by {
        lemma_u64_of_encode(s, p2, v[i]);
    }
    lemma_decode_each_of_encode(s, pos + 8, v, word_enc(), word_dec());
}

/// Decoding a list of word lists reads back what encoding wrote.
pub proof fn lemma_word_lists_of_encode(s: Seq<u8>, pos: int, v: Seq<Seq<u64>>)
    requires
        word_lists_size_ok(v),
        0 <= pos,
        pos + spec_encode_word_lists(v).len() <= s.len(),
        s.subrange(pos, pos + spec_encode_word_lists(v).len()) == spec_encode_word_lists(v),
    ensures
        spec_decode_word_lists(s, pos) == Some((v, pos + spec_encode_word_lists(v).len())),
{
    lemma_auto_spec_u64_to_from_le_bytes();
    let whole = spec_encode_word_lists(v);
    let each = spec_encode_each(v, words_enc());
    assert(whole.len() == 8 + each.len());
    lemma_subrange_of_eq(s, pos, whole, 0, 8);
    assert(whole.subrange(0, 8) =~= spec_encode_u64(v.len() as u64));
    lemma_u64_of_encode(s, pos, v.len() as u64);
    lemma_subrange_of_eq(s, pos, whole, 8, whole.len() as int);
    assert(whole.subrange(8, whole.len() as int) =~= each);
    assert forall|i: int, p2: int|
        #![trigger (words_dec())(s, p2), (words_enc())(v[i])]
        0 <= i < v.len() && 0 <= p2 && p2 + (words_enc())(v[i]).len() <= s.len() && s.subrange(
            p2,
            p2 + (words_enc())(v[i]).len(),
        ) == (words_enc())(v[i]) implies (words_dec())(s, p2) == Some(
        (v[i], p2 + (words_enc())(v[i]).len()),
    ) by {
        lemma_words_of_encode(s, p2, v[i]);
    }
    lemma_decode_each_of_encode(s, pos + 8, v, words_enc(), words_dec());
}

/// Decoding a list of byte blocks reads back what encoding wrote.
pub proof fn lemma_blocks_of_encode(s: Seq<u8>, pos: int, v: Seq<Seq<u8>>)
    requires
        blocks_size_ok(v),
        0 <= pos,
        pos + spec_encode_blocks(v).len() <= s.len(),
        s.subrange(pos, pos + spec_encode_blocks(v).len()) == spec_encode_blocks(v),
    ensures
        spec_decode_blocks(s, pos) == Some((v, pos + spec_encode_blocks(v).len())),
{
    lemma_auto_spec_u64_to_from_le_bytes();
    let whole = spec_encode_blocks(v);
    let each = spec_encode_each(v, block_enc());
    assert(whole.len() == 8 + each.len());
    lemma_subrange_of_eq(s, pos, whole, 0, 8);
    assert(whole.subrange(0, 8) =~= spec_encode_u64(v.len() as u64));
    lemma_u64_of_encode(s, pos, v.len() as u64);
    lemma_subrange_of_eq(s, pos, whole, 8, whole.len() as int);
    assert(whole.subrange(8, whole.len() as int) =~= each);
    assert forall|i: int, p2: int|
        #![trigger (block_dec())(s, p2), (block_enc())(v[i])]
        0 <= i < v.len() && 0 <= p2 && p2 + (block_enc())(v[i]).len() <= s.len() && s.subrange(
            p2,
            p2 + (block_enc())(v[i]).len(),
        ) == (block_enc())(v[i]) implies (block_dec())(s, p2) == Some(
        (v[i], p2 + (block_enc())(v[i]).len()),
    ) by {
        lemma_block_of_encode(s, p2, v[i]);
    }
    lemma_decode_each_of_encode(s, pos + 8, v, block_enc(), block_dec());
}

/// Decoding one account change reads back what encoding wrote.
pub proof fn lemma_account_change_of_encode(s: Seq<u8>, pos: int, c: AccountChangeView)
    requires
        account_change_size_ok(c),
        0 <= pos,
        pos + spec_encode_account_change(c).len() <= s.len(),
        s.subrange(pos, pos + spec_encode_account_change(c).len()) == spec_encode_account_change(
            c,
        ),
    ensures
        spec_decode_account_change(s, pos) == Some(
            (c, pos + spec_encode_account_change(c).len()),
        ),
{
    lemma_auto_spec_u64_to_from_le_bytes();
    let whole = spec_encode_account_change(c);
    let e1 = spec_encode_block(c.pubkey);
    let e2 = spec_encode_block(c.data_before);
    let e3 = spec_encode_block(c.data_after);
    let e4 = spec_encode_u64(c.lamports_before);
    let e5 = spec_encode_u64(c.lamports_after);
    let o1 = e1.len() as int;
    let o2 = o1 + e2.len();
    let o3 = o2 + e3.len();
    let o4 = o3 + e4.len();
    let o5 = o4 + e5.len();
    assert(whole.len() == o5);
    lemma_subrange_of_eq(s, pos, whole, 0, o1);
    assert(whole.subrange(0, o1) =~= e1);
    lemma_block_of_encode(s, pos, c.pubkey);
    lemma_subrange_of_eq(s, pos, whole, o1, o2);
    assert(whole.subrange(o1, o2) =~= e2);
    lemma_block_of_encode(s, pos + o1, c.data_before);
    lemma_subrange_of_eq(s, pos, whole, o2, o3);
    assert(whole.subrange(o2, o3) =~= e3);
    lemma_block_of_encode(s, pos + o2, c.data_after);
    lemma_subrange_of_eq(s, pos, whole, o3, o4);
    assert(whole.subrange(o3, o4) =~= e4);
    lemma_u64_of_encode(s, pos + o3, c.lamports_before);
    lemma_subrange_of_eq(s, pos, whole, o4, o5);
    assert(whole.subrange(o4, o5) =~= e5);
    lemma_u64_of_encode(s, pos + o4, c.lamports_after);
}

/// Decoding a list of account changes reads back what encoding wrote.
pub proof fn lemma_account_changes_of_encode(s: Seq<u8>, pos: int, v: Seq<AccountChangeView>)
    requires
        account_changes_size_ok(v),
        0 <= pos,
        pos + spec_encode_account_changes(v).len() <= s.len(),
        s.subrange(pos, pos + spec_encode_account_changes(v).len())
            == spec_encode_account_changes(v),
    ensures
        spec_decode_account_changes(s, pos) == Some(
            (v, pos + spec_encode_account_changes(v).len()),
        ),
{
    lemma_auto_spec_u64_to_from_le_bytes();
    let whole = spec_encode_account_changes(v);
    let each = spec_encode_each(v, account_enc());
    assert(whole.len() == 8 + each.len());
    lemma_subrange_of_eq(s, pos, whole, 0, 8);
    assert(whole.subrange(0, 8) =~= spec_encode_u64(v.len() as u64));
    lemma_u64_of_encode(s, pos, v.len() as u64);
    lemma_subrange_of_eq(s, pos, whole, 8, whole.len() as int);
    assert(whole.subrange(8, whole.len() as int) =~= each);
    assert forall|i: int, p2: int|
        #![trigger (account_dec())(s, p2), (account_enc())(v[i])]
        0 <= i < v.len() && 0 <= p2 && p2 + (account_enc())(v[i]).len() <= s.len() && s.subrange(
            p2,
            p2 + (account_enc())(v[i]).len(),
        ) == (account_enc())(v[i]) implies (account_dec())(s, p2) == Some(
        (v[i], p2 + (account_enc())(v[i]).len()),
    ) by {
        lemma_account_change_of_encode(s, p2, v[i]);
    }
    lemma_decode_each_of_encode(s, pos + 8, v, account_enc(), account_dec());
}

/// The serialization round trip: decoding an encoded witness gives back
/// exactly that witness, for every witness whose lists can carry their
/// lengths in 64-bit fields.
pub proof fn lemma_witness_round_trip(w: WitnessView)
    requires
        witness_size_ok(w),
    ensures
        spec_decode_witness(spec_encode_witness(w)) == Some(w),
{
    lemma_auto_spec_u64_to_from_le_bytes();
    let s = spec_encode_witness(w);
    let e1 = spec_encode_words(w.initial_registers);
    let e2 = spec_encode_word_lists(w.instruction_register_states);
    let e3 = spec_encode_words(w.final_registers);
    let e4 = spec_encode_words(w.program_counters);
    let e5 = spec_encode_blocks(w.instruction_bytes);
    let e6 = spec_encode_account_changes(w.account_changes);
    let p1 = e1.len() as int;
    let p2 = p1 + e2.len();
    let p3 = p2 + e3.len();
    let p4 = p3 + e4.len();
    let p5 = p4 + e5.len();
    let p6 = p5 + e6.len();
    assert(s.len() == p6);
    assert(s.subrange(0, p1) =~= e1);
    lemma_words_of_encode(s, 0, w.initial_registers);
    assert(s.subrange(p1, p2) =~= e2);
    lemma_word_lists_of_encode(s, p1, w.instruction_register_states);
    assert(s.subrange(p2, p3) =~= e3);
    lemma_words_of_encode(s, p2, w.final_registers);
    assert(s.subrange(p3, p4) =~= e4);
    lemma_words_of_encode(s, p3, w.program_counters);
    assert(s.subrange(p4, p5) =~= e5);
    lemma_blocks_of_encode(s, p4, w.instruction_bytes);
    assert(s.subrange(p5, p6) =~= e6);
    lemma_account_changes_of_encode(s, p5, w.account_changes);
}

// ---------------------------------------------------------------------------
// Executable encoding
// ---------------------------------------------------------------------------
/// Append one word to `out`.
fn encode_u64_into(out: &mut Vec<u8>, x: u64)
    ensures
        final(out)@ == old(out)@ + spec_encode_u64(x),
{
    let mut b = u64_to_le_bytes(x);
    out.append(&mut b);
}

/// Append one byte block to `out`.
fn encode_block_into(out: &mut Vec<u8>, b: &Vec<u8>)
    ensures
        final(out)@ == old(out)@ + spec_encode_block(b@),
{
    encode_u64_into(out, b.len() as u64);
    out.extend_from_slice(b.as_slice());
    proof {
        assert(out@ =~= old(out)@ + spec_encode_block(b@));
    }
}

/// Append a word list to `out`.
fn encode_words_into(out: &mut Vec<u8>, v: &Vec<u64>)
    ensures
        final(out)@ == old(out)@ + spec_encode_words(v@),
{
    encode_u64_into(out, v.len() as u64);
    let ghost base = out@;
    let mut i: usize = 0;
    while i < v.len()
        invariant
            0 <= i <= v@.len(),
            out@ == base + spec_encode_each(v@.take(i as int), word_enc()),
        decreases v@.len() - i,
    {
        encode_u64_into(out, v[i]);
        proof {
            lemma_encode_each_push(v@.take(i as int), v@[i as int], word_enc());
            assert(v@.take(i + 1) =~= v@.take(i as int).push(v@[i as int]));
        }
        i += 1;
    }
    proof {
        assert(v@.take(v@.len() as int) =~= v@);
        assert(out@ =~= old(out)@ + spec_encode_words(v@));
    }
}

/// Append a list of word lists to `out`.
fn encode_word_lists_into(out: &mut Vec<u8>, v: &Vec<Vec<u64>>)
    ensures
        final(out)@ == old(out)@ + spec_encode_word_lists(deep_words(v@)),
{
    encode_u64_into(out, v.len() as u64);
    let ghost base = out@;
    let mut i: usize = 0;
    while i < v.len()
        invariant
            0 <= i <= v@.len(),
            out@ == base + spec_encode_each(deep_words(v@).take(i as int), words_enc()),
        decreases v@.len() - i,
    {
        encode_words_into(out, &v[i]);
        proof {
            lemma_encode_each_push(
                deep_words(v@).take(i as int),
                deep_words(v@)[i as int],
                words_enc(),
            );
            assert(deep_words(v@).take(i + 1) =~= deep_words(v@).take(i as int).push(
                deep_words(v@)[i as int],
            ));
        }
        i += 1;
    }
    proof {
        assert(deep_words(v@).take(v@.len() as int) =~= deep_words(v@));
        assert(out@ =~= old(out)@ + spec_encode_word_lists(deep_words(v@)));
    }
}

/// Append a list of byte blocks to `out`.
fn encode_blocks_into(out: &mut Vec<u8>, v: &Vec<Vec<u8>>)
    ensures
        final(out)@ == old(out)@ + spec_encode_blocks(deep_blocks(v@)),
{
    encode_u64_into(out, v.len() as u64);
    let ghost base = out@;
    let mut i: usize = 0;
    while i < v.len()
        invariant
            0 <= i <= v@.len(),
            out@ == base + spec_encode_each(deep_blocks(v@).take(i as int), block_enc()),
        decreases v@.len() - i,
    {
        encode_block_into(out, &v[i]);
        proof {
            lemma_encode_each_push(
                deep_blocks(v@).take(i as int),
                deep_blocks(v@)[i as int],
                block_enc(),
            );
            assert(deep_blocks(v@).take(i + 1) =~= deep_blocks(v@).take(i as int).push(
                deep_blocks(v@)[i as int],
            ));
        }
        i += 1;
    }
    proof {
        assert(deep_blocks(v@).take(v@.len() as int) =~= deep_blocks(v@));
        assert(out@ =~= old(out)@ + spec_encode_blocks(deep_blocks(v@)));
    }
}

/// Append one account change to `out`.
fn encode_account_change_into(out: &mut Vec<u8>, c: &AccountChange)
    ensures
        final(out)@ == old(out)@ + spec_encode_account_change(c@),
{
    encode_block_into(out, &c.pubkey);
    encode_block_into(out, &c.data_before);
    encode_block_into(out, &c.data_after);
    encode_u64_into(out, c.lamports_before);
    encode_u64_into(out, c.lamports_after);
    proof {
        assert(out@ =~= old(out)@ + spec_encode_account_change(c@));
    }
}

/// Append a list of account changes to `out`.
fn encode_account_changes_into(out: &mut Vec<u8>, v: &Vec<AccountChange>)
    ensures
        final(out)@ == old(out)@ + spec_encode_account_changes(deep_accounts(v@)),
{
    encode_u64_into(out, v.len() as u64);
    let ghost base = out@;
    let mut i: usize = 0;
    while i < v.len()
        invariant
            0 <= i <= v@.len(),
            out@ == base + spec_encode_each(deep_accounts(v@).take(i as int), account_enc()),
        decreases v@.len() - i,
    {
        encode_account_change_into(out, &v[i]);
        proof {
            lemma_encode_each_push(
                deep_accounts(v@).take(i as int),
                deep_accounts(v@)[i as int],
                account_enc(),
            );
            assert(deep_accounts(v@).take(i + 1) =~= deep_accounts(v@).take(i as int).push(
                deep_accounts(v@)[i as int],
            ));
        }
        i += 1;
    }
    proof {
        assert(deep_accounts(v@).take(v@.len() as int) =~= deep_accounts(v@));
        assert(out@ =~= old(out)@ + spec_encode_account_changes(deep_accounts(v@)));
    }
}

// ---------------------------------------------------------------------------
// Executable decoding
// ---------------------------------------------------------------------------
/// Decode one word at `pos`.
fn decode_u64_at(s: &[u8], pos: usize) -> (r: Result<(u64, usize), CodecError>)
    ensures
        r matches Ok(v) ==> spec_decode_u64(s@, pos as int) == Some((v.0, v.1 as int)) && v.1
            <= s@.len(),
        r is Err ==> spec_decode_u64(s@, pos as int) is None,
{
    let n = s.len();
    if n >= 8 && pos <= n - 8 {
        let w = u64_from_le_bytes(slice_subrange(s, pos, pos + 8));
        Ok((w, pos + 8))
    } else {
        Err(CodecError::Truncated)
    }
}

/// Decode one byte block at `pos`.
fn decode_block_at(s: &[u8], pos: usize) -> (r: Result<(Vec<u8>, usize), CodecError>)
    ensures
        r matches Ok(v) ==> spec_decode_block(s@, pos as int) == Some((v.0@, v.1 as int)) && v.1
            <= s@.len(),
        r is Err ==> spec_decode_block(s@, pos as int) is None,
{
    let (len_word, p) = match decode_u64_at(s, pos) {
        Ok(v) => v,
        Err(e) => {
            return Err(e);
        },
    };
    let n = s.len();
    if len_word > (n - p) as u64 {
        return Err(CodecError::Truncated);
    }
    let lenb = len_word as usize;
    let block = slice_to_vec(slice_subrange(s, p, p + lenb));
    Ok((block, p + lenb))
}

/// Decode `count` words starting at `pos`.
fn decode_words_elems(s: &[u8], pos: usize, count: usize) -> (r: Result<
    (Vec<u64>, usize),
    CodecError,
>)
    requires
        pos <= s@.len(),
    ensures
        r matches Ok(v) ==> spec_decode_each(s@, pos as int, count as nat, word_dec()) == Some(
            (v.0@, v.1 as int),
        ) && v.1 <= s@.len(),
        r is Err ==> spec_decode_each(s@, pos as int, count as nat, word_dec()) is None,
{
    let mut acc: Vec<u64> = Vec::new();
    let mut cur = pos;
    let mut i: usize = 0;
    proof {
        match spec_decode_each(s@, pos as int, count as nat, word_dec()) {
            Some(r2) => {
                assert(Seq::<u64>::empty() + r2.0 =~= r2.0);
            },
            None => {},
        }
    }
    while i < count
        invariant
            0 <= i <= count,
            cur <= s@.len(),
            match spec_decode_each(s@, cur as int, (count - i) as nat, word_dec()) {
                Some(r2) => spec_decode_each(s@, pos as int, count as nat, word_dec()) == Some(
                    (acc@ + r2.0, r2.1),
                ),
                None => spec_decode_each(s@, pos as int, count as nat, word_dec()) is None,
            },
        decreases count - i,
    {
        proof {
            assert((word_dec())(s@, cur as int) == spec_decode_u64(s@, cur as int));
        }
        match decode_u64_at(s, cur) {
            Err(e) => {
                return Err(e);
            },
            Ok((x, p2)) => {
                proof {
                    match spec_decode_each(s@, p2 as int, (count - i - 1) as nat, word_dec()) {
                        Some(r3) => {
                            assert((acc@ + seq![x]) + r3.0 =~= acc@ + (seq![x] + r3.0));
                        },
                        None => {},
                    }
                }
                acc.push(x);
                cur = p2;
                i += 1;
            },
        }
    }
    proof {
        assert(acc@ + Seq::<u64>::empty() =~= acc@);
    }
    Ok((acc, cur))
}

/// Decode a word list at `pos`.
fn decode_words_at(s: &[u8], pos: usize) -> (r: Result<(Vec<u64>, usize), CodecError>)
    ensures
        r matches Ok(v) ==> spec_decode_words(s@, pos as int) == Some((v.0@, v.1 as int)) && v.1
            <= s@.len(),
        r is Err ==> spec_decode_words(s@, pos as int) is None,
{
    let (count_word, p) = match decode_u64_at(s, pos) {
        Ok(v) => v,
        Err(e) => {
            return Err(e);
        },
    };
    let n = s.len();
    if count_word > ((n - p) / 8) as u64 {
        proof {
            lemma_word_dec_bounds(s@);
            lemma_decode_each_props(s@, p as int, count_word as nat, word_dec());
        }
        return Err(CodecError::Truncated);
    }
    decode_words_elems(s, p, count_word as usize)
}

/// Decode `count` word lists starting at `pos`.
fn decode_word_lists_elems(s: &[u8], pos: usize, count: usize) -> (r: Result<
    (Vec<Vec<u64>>, usize),
    CodecError,
>)
    requires
        pos <= s@.len(),
    ensures
        r matches Ok(v) ==> spec_decode_each(s@, pos as int, count as nat, words_dec()) == Some(
            (deep_words(v.0@), v.1 as int),
        ) && v.1 <= s@.len(),
        r is Err ==> spec_decode_each(s@, pos as int, count as nat, words_dec()) is None,
{
    let mut acc: Vec<Vec<u64>> = Vec::new();
    let mut cur = pos;
    let mut i: usize = 0;
    proof {
        assert(deep_words(acc@) =~= Seq::<Seq<u64>>::empty());
        match spec_decode_each(s@, pos as int, count as nat, words_dec()) {
            Some(r2) => {
                assert(Seq::<Seq<u64>>::empty() + r2.0 =~= r2.0);
            },
            None => {},
        }
    }
    while i < count
        invariant
            0 <= i <= count,
            cur <= s@.len(),
            match spec_decode_each(s@, cur as int, (count - i) as nat, words_dec()) {
                Some(r2) => spec_decode_each(s@, pos as int, count as nat, words_dec()) == Some(
                    (deep_words(acc@) + r2.0, r2.1),
                ),
                None => spec_decode_each(s@, pos as int, count as nat, words_dec()) is None,
            },
        decreases count - i,
    {
        proof {
            assert((words_dec())(s@, cur as int) == spec_decode_words(s@, cur as int));
        }
        match decode_words_at(s, cur) {
            Err(e) => {
                return Err(e);
            },
            Ok((x, p2)) => {
                proof {
                    assert(deep_words(acc@.push(x)) =~= deep_words(acc@).push(x@));
                    match spec_decode_each(s@, p2 as int, (count - i - 1) as nat, words_dec()) {
                        Some(r3) => {
                            assert((deep_words(acc@) + seq![x@]) + r3.0 =~= deep_words(acc@) + (
                            seq![x@] + r3.0));
                            assert(deep_words(acc@).push(x@) =~= deep_words(acc@) + seq![x@]);
                        },
                        None => {},
                    }
                }
                acc.push(x);
                cur = p2;
                i += 1;
            },
        }
    }
    proof {
        assert(deep_words(acc@) + Seq::<Seq<u64>>::empty() =~= deep_words(acc@));
    }
    Ok((acc, cur))
}

/// Decode a list of word lists at `pos`.
fn decode_word_lists_at(s: &[u8], pos: usize) -> (r: Result<(Vec<Vec<u64>>, usize), CodecError>)
    ensures
        r matches Ok(v) ==> spec_decode_word_lists(s@, pos as int) == Some(
            (deep_words(v.0@), v.1 as int),
        ) && v.1 <= s@.len(),
        r is Err ==> spec_decode_word_lists(s@, pos as int) is None,
{
    let (count_word, p) = match decode_u64_at(s, pos) {
        Ok(v) => v,
        Err(e) => {
            return Err(e);
        },
    };
    let n = s.len();
    if count_word > ((n - p) / 8) as u64 {
        proof {
            lemma_words_dec_bounds(s@);
            lemma_decode_each_props(s@, p as int, count_word as nat, words_dec());
        }
        return Err(CodecError::Truncated);
    }
    decode_word_lists_elems(s, p, count_word as usize)
}

/// Decode `count` byte blocks starting at `pos`.
fn decode_blocks_elems(s: &[u8], pos: usize, count: usize) -> (r: Result<
    (Vec<Vec<u8>>, usize),
    CodecError,
>)
    requires
        pos <= s@.len(),
    ensures
        r matches Ok(v) ==> spec_decode_each(s@, pos as int, count as nat, block_dec()) == Some(
            (deep_blocks(v.0@), v.1 as int),
        ) && v.1 <= s@.len(),
        r is Err ==> spec_decode_each(s@, pos as int, count as nat, block_dec()) is None,
{
    let mut acc: Vec<Vec<u8>> = Vec::new();
    let mut cur = pos;
    let mut i: usize = 0;
    proof {
        assert(deep_blocks(acc@) =~= Seq::<Seq<u8>>::empty());
        match spec_decode_each(s@, pos as int, count as nat, block_dec()) {
            Some(r2) => {
                assert(Seq::<Seq<u8>>::empty() + r2.0 =~= r2.0);
            },
            None => {},
        }
    }
    while i < count
        invariant
            0 <= i <= count,
            cur <= s@.len(),
            match spec_decode_each(s@, cur as int, (count - i) as nat, block_dec()) {
                Some(r2) => spec_decode_each(s@, pos as int, count as nat, block_dec()) == Some(
                    (deep_blocks(acc@) + r2.0, r2.1),
                ),
                None => spec_decode_each(s@, pos as int, count as nat, block_dec()) is None,
            },
        decreases count - i,
    {
        proof {
            assert((block_dec())(s@, cur as int) == spec_decode_block(s@, cur as int));
        }
        match decode_block_at(s, cur) {
            Err(e) => {
                return Err(e);
            },
            Ok((x, p2)) => {
                proof {
                    assert(deep_blocks(acc@.push(x)) =~= deep_blocks(acc@).push(x@));
                    match spec_decode_each(s@, p2 as int, (count - i - 1) as nat, block_dec()) {
                        Some(r3) => {
                            assert((deep_blocks(acc@) + seq![x@]) + r3.0 =~= deep_blocks(acc@) + (
                            seq![x@] + r3.0));
                            assert(deep_blocks(acc@).push(x@) =~= deep_blocks(acc@) + seq![x@]);
                        },
                        None => {},
                    }
                }
                acc.push(x);
                cur = p2;
                i += 1;
            },
        }
    }
    proof {
        assert(deep_blocks(acc@) + Seq::<Seq<u8>>::empty() =~= deep_blocks(acc@));
    }
    Ok((acc, cur))
}

/// Decode a list of byte blocks at `pos`.
fn decode_blocks_at(s: &[u8], pos: usize) -> (r: Result<(Vec<Vec<u8>>, usize), CodecError>)
    ensures
        r matches Ok(v) ==> spec_decode_blocks(s@, pos as int) == Some(
            (deep_blocks(v.0@), v.1 as int),
        ) && v.1 <= s@.len(),
        r is Err ==> spec_decode_blocks(s@, pos as int) is None,
{
    let (count_word, p) = match decode_u64_at(s, pos) {
        Ok(v) => v,
        Err(e) => {
            return Err(e);
        },
    };
    let n = s.len();
    if count_word > ((n - p) / 8) as u64 {
        proof {
            lemma_block_dec_bounds(s@);
            lemma_decode_each_props(s@, p as int, count_word as nat, block_dec());
        }
        return Err(CodecError::Truncated);
    }
    decode_blocks_elems(s, p, count_word as usize)
}

/// Decode one account change at `pos`.
fn decode_account_change_at(s: &[u8], pos: usize) -> (r: Result<
    (AccountChange, usize),
    CodecError,
>)
    ensures
        r matches Ok(v) ==> spec_decode_account_change(s@, pos as int) == Some(
            (v.0@, v.1 as int),
        ) && v.1 <= s@.len(),
        r is Err ==> spec_decode_account_change(s@, pos as int) is None,
{
    let (pubkey, p1) = match decode_block_at(s, pos) {
        Ok(v) => v,
        Err(e) => {
            return Err(e);
        },
    };
    let (data_before, p2) = match decode_block_at(s, p1) {
        Ok(v) => v,
        Err(e) => {
            return Err(e);
        },
    };
    let (data_after, p3) = match decode_block_at(s, p2) {
        Ok(v) => v,
        Err(e) => {
            return Err(e);
        },
    };
    let (lamports_before, p4) = match decode_u64_at(s, p3) {
        Ok(v) => v,
        Err(e) => {
            return Err(e);
        },
    };
    let (lamports_after, p5) = match decode_u64_at(s, p4) {
        Ok(v) => v,
        Err(e) => {
            return Err(e);
        },
    };
    Ok((AccountChange { pubkey, data_before, data_after, lamports_before, lamports_after }, p5))
}

/// Decode `count` account changes starting at `pos`.
fn decode_account_changes_elems(s: &[u8], pos: usize, count: usize) -> (r: Result<
    (Vec<AccountChange>, usize),
    CodecError,
>)
    requires
        pos <= s@.len(),
    ensures
        r matches Ok(v) ==> spec_decode_each(s@, pos as int, count as nat, account_dec()) == Some(
            (deep_accounts(v.0@), v.1 as int),
        ) && v.1 <= s@.len(),
        r is Err ==> spec_decode_each(s@, pos as int, count as nat, account_dec()) is None,
{
    let mut acc: Vec<AccountChange> = Vec::new();
    let mut cur = pos;
    let mut i: usize = 0;
    proof {
        assert(deep_accounts(acc@) =~= Seq::<AccountChangeView>::empty());
        match spec_decode_each(s@, pos as int, count as nat, account_dec()) {
            Some(r2) => {
                assert(Seq::<AccountChangeView>::empty() + r2.0 =~= r2.0);
            },
            None => {},
        }
    }
    while i < count
        invariant
            0 <= i <= count,
            cur <= s@.len(),
            match spec_decode_each(s@, cur as int, (count - i) as nat, account_dec()) {
                Some(r2) => spec_decode_each(s@, pos as int, count as nat, account_dec()) == Some(
                    (deep_accounts(acc@) + r2.0, r2.1),
                ),
                None => spec_decode_each(s@, pos as int, count as nat, account_dec()) is None,
            },
        decreases count - i,
    {
        proof {
            assert((account_dec())(s@, cur as int) == spec_decode_account_change(
                s@,
                cur as int,
            ));
        }
        match decode_account_change_at(s, cur) {
            Err(e) => {
                return Err(e);
            },
            Ok((x, p2)) => {
                proof {
                    assert(deep_accounts(acc@.push(x)) =~= deep_accounts(acc@).push(x@));
                    match spec_decode_each(s@, p2 as int, (count - i - 1) as nat, account_dec()) {
                        Some(r3) => {
                            assert((deep_accounts(acc@) + seq![x@]) + r3.0 =~= deep_accounts(acc@)
                                + (seq![x@] + r3.0));
                            assert(deep_accounts(acc@).push(x@) =~= deep_accounts(acc@)
                                + seq![x@]);
                        },
                        None => {},
                    }
                }
                acc.push(x);
                cur = p2;
                i += 1;
            },
        }
    }
    proof {
        assert(deep_accounts(acc@) + Seq::<AccountChangeView>::empty() =~= deep_accounts(acc@));
    }
    Ok((acc, cur))
}

/// Decode a list of account changes at `pos`.
fn decode_account_changes_at(s: &[u8], pos: usize) -> (r: Result<
    (Vec<AccountChange>, usize),
    CodecError,
>)
    ensures
        r matches Ok(v) ==> spec_decode_account_changes(s@, pos as int) == Some(
            (deep_accounts(v.0@), v.1 as int),
        ) && v.1 <= s@.len(),
        r is Err ==> spec_decode_account_changes(s@, pos as int) is None,
{
    let (count_word, p) = match decode_u64_at(s, pos) {
        Ok(v) => v,
        Err(e) => {
            return Err(e);
        },
    };
    let n = s.len();
    if count_word > ((n - p) / 8) as u64 {
        proof {
            lemma_account_dec_bounds(s@);
            lemma_decode_each_props(s@, p as int, count_word as nat, account_dec());
        }
        return Err(CodecError::Truncated);
    }
    decode_account_changes_elems(s, p, count_word as usize)
}

impl Witness {
    /// Serialize this witness to bytes.
    pub fn to_bytes(&self) -> (r: Vec<u8>)
        ensures
            r@ == spec_encode_witness(self@),
    {
        let mut out: Vec<u8> = Vec::new();
        encode_words_into(&mut out, &self.initial_registers);
        encode_word_lists_into(&mut out, &self.instruction_register_states);
        encode_words_into(&mut out, &self.final_registers);
        encode_words_into(&mut out, &self.program_counters);
        encode_blocks_into(&mut out, &self.instruction_bytes);
        encode_account_changes_into(&mut out, &self.account_changes);
        proof {
            assert(out@ =~= spec_encode_witness(self@));
        }
        out
    }

    /// Deserialize a witness from bytes. Succeeds exactly when the buffer
    /// holds one well-formed encoding and nothing else.
    pub fn from_bytes(bytes: &[u8]) -> (r: Result<Witness, CodecError>)
        ensures
            r matches Ok(w) ==> spec_decode_witness(bytes@) == Some(w@),
            r is Err ==> spec_decode_witness(bytes@) is None,
    {
        let (initial_registers, p1) = match decode_words_at(bytes, 0) {
            Ok(v) => v,
            Err(e) => {
                return Err(e);
            },
        };
        let (instruction_register_states, p2) = match decode_word_lists_at(bytes, p1) {
            Ok(v) => v,
            Err(e) => {
                return Err(e);
            },
        };
        let (final_registers, p3) = match decode_words_at(bytes, p2) {
            Ok(v) => v,
            Err(e) => {
                return Err(e);
            },
        };
        let (program_counters, p4) = match decode_words_at(bytes, p3) {
            Ok(v) => v,
            Err(e) => {
                return Err(e);
            },
        };
        let (instruction_bytes, p5) = match decode_blocks_at(bytes, p4) {
            Ok(v) => v,
            Err(e) => {
                return Err(e);
            },
        };
        let (account_changes, p6) = match decode_account_changes_at(bytes, p5) {
            Ok(v) => v,
            Err(e) => {
                return Err(e);
            },
        };
        if p6 != bytes.len() {
            return Err(CodecError::Truncated);
        }
        let w = Witness {
            initial_registers,
            instruction_register_states,
            final_registers,
            program_counters,
            instruction_bytes,
            account_changes,
        };
        proof {
            assert(w@.instruction_register_states =~= deep_words(
                w.instruction_register_states@,
            ));
            assert(w@.instruction_bytes =~= deep_blocks(w.instruction_bytes@));
            assert(w@.account_changes =~= deep_accounts(w.account_changes@));
        }
        Ok(w)
    }
}

/// The element views of a vector of word vectors.
pub open spec fn deep_words(v: Seq<Vec<u64>>) -> Seq<Seq<u64>> {
    Seq::new(v.len(), |k: int| v[k]@)
}

/// The element views of a vector of byte vectors.
pub open spec fn deep_blocks(v: Seq<Vec<u8>>) -> Seq<Seq<u8>> {
    Seq::new(v.len(), |k: int| v[k]@)
}

/// The element views of a vector of account changes.
pub open spec fn deep_accounts(v: Seq<AccountChange>) -> Seq<AccountChangeView> {
    Seq::new(v.len(), |k: int| v[k]@)
}

/// Every witness held in memory meets the serialization size bounds:
/// its vectors are machine-sized, so each list can carry its length in a
/// 64-bit field. Together with the round-trip lemma this gives, for any
/// witness value, that decoding its encoding yields it back.
pub proof fn lemma_witness_size_ok(w: &Witness)
    ensures
        witness_size_ok(w@),
{
    vstd::std_specs::vec::axiom_spec_len(&w.initial_registers);
    vstd::std_specs::vec::axiom_spec_len(&w.final_registers);
    vstd::std_specs::vec::axiom_spec_len(&w.program_counters);
    vstd::std_specs::vec::axiom_spec_len(&w.instruction_register_states);
    vstd::std_specs::vec::axiom_spec_len(&w.instruction_bytes);
    vstd::std_specs::vec::axiom_spec_len(&w.account_changes);
    assert forall|i: int| 0 <= i < w@.instruction_register_states.len() implies (
    #[trigger] w@.instruction_register_states[i]).len() <= u64::MAX by {
        vstd::std_specs::vec::axiom_spec_len(&w.instruction_register_states@[i]);
    }
    assert forall|i: int| 0 <= i < w@.instruction_bytes.len() implies (
    #[trigger] w@.instruction_bytes[i]).len() <= u64::MAX by {
        vstd::std_specs::vec::axiom_spec_len(&w.instruction_bytes@[i]);
    }
    assert forall|i: int| 0 <= i < w@.account_changes.len() implies account_change_size_ok(
        #[trigger] w@.account_changes[i],
    ) by {
        vstd::std_specs::vec::axiom_spec_len(&w.account_changes@[i].pubkey);
        vstd::std_specs::vec::axiom_spec_len(&w.account_changes@[i].data_before);
        vstd::std_specs::vec::axiom_spec_len(&w.account_changes@[i].data_after);
    }
}

} // verus!
