use vstd::prelude::*;

use crate::decimal::{decimal_digits, lemma_decimal_digits, parse_spec};
use crate::store::{after_consume, consume_spec, peek_spec, stored_value, StoreError};

verus! {

/// One operation on a counter, in the order the store's lock let it run.
pub enum Op {
    Peek,
    Consume,
}

/// The counter's file after `op`.
pub open spec fn apply(file: Option<Seq<u8>>, op: Op) -> Option<Seq<u8>> {
    match op {
        Op::Peek => file,
        Op::Consume => after_consume(file),
    }
}

/// The counter's file after the operations `ops`, first to last.
pub open spec fn run(file: Option<Seq<u8>>, ops: Seq<Op>) -> Option<Seq<u8>>
    decreases ops.len(),
{
    if ops.len() == 0 {
        file
    } else {
        apply(run(file, ops.drop_last()), ops.last())
    }
}

/// The values that the successful Consumes among `ops` returned, in order.
pub open spec fn consumed_values(file: Option<Seq<u8>>, ops: Seq<Op>) -> Seq<u64>
    decreases ops.len(),
{
    if ops.len() == 0 {
        Seq::empty()
    } else {
        let before = consumed_values(file, ops.drop_last());
        match (ops.last(), consume_spec(run(file, ops.drop_last()))) {
            (Op::Consume, Ok(v)) => before.push(v),
            _ => before,
        }
    }
}

/// How many Consumes `ops` holds.
pub open spec fn count_consumes(ops: Seq<Op>) -> nat
    decreases ops.len(),
{
    if ops.len() == 0 {
        0
    } else {
        count_consumes(ops.drop_last()) + if ops.last() is Consume {
            1nat
        } else {
            0nat
        }
    }
}

/// `n` Consumes in a row.
pub open spec fn consumes(n: nat) -> Seq<Op> {
    Seq::new(n, |i: int| Op::Consume)
}

/// The canonical decimal rendering of a value reads back as that value.
pub proof fn lemma_decimal_round_trip(v: u64)
    ensures
        parse_spec(decimal_digits(v as nat)) == Ok::<u64, crate::decimal::ParseError>(v),
{
    lemma_decimal_digits(v as nat);
}

/// No operation lowers a readable counter, and a readable counter stays readable.
pub proof fn lemma_apply_monotone(file: Option<Seq<u8>>, op: Op)
    requires
        stored_value(file) is Ok,
    ensures
        stored_value(apply(file, op)) is Ok,
        stored_value(apply(file, op))->Ok_0 >= stored_value(file)->Ok_0,
{
    if op is Consume && consume_spec(file) is Ok {
        let v = consume_spec(file)->Ok_0;
        lemma_decimal_round_trip((v + 1) as u64);
    }
}

/// Peek results never decrease: among the states a counter passes through
/// under any sequence of Peeks and Consumes, a later readable state holds a
/// value at least that of an earlier one, and once readable it stays so.
pub proof fn lemma_peek_never_decreases(file: Option<Seq<u8>>, ops: Seq<Op>, i: int, j: int)
    requires
        0 <= i <= j <= ops.len(),
        peek_spec(run(file, ops.take(i))) is Ok,
    ensures
        peek_spec(run(file, ops.take(j))) is Ok,
        peek_spec(run(file, ops.take(j)))->Ok_0 >= peek_spec(run(file, ops.take(i)))->Ok_0,
    decreases j - i,
{
    if j > i {
        lemma_peek_never_decreases(file, ops, i, j - 1);
        let prev = run(file, ops.take(j - 1));
        assert(ops.take(j).drop_last() =~= ops.take(j - 1));
        assert(run(file, ops.take(j)) == apply(prev, ops[j - 1]));
        lemma_apply_monotone(prev, ops[j - 1]);
    }
}

/// Peek is idempotent: it leaves the counter as it was, so a second Peek
/// returns what the first did.
pub proof fn lemma_peek_idempotent(file: Option<Seq<u8>>)
    ensures
        apply(file, Op::Peek) == file,
        peek_spec(apply(file, Op::Peek)) == peek_spec(file),
{
}

/// Starting from a counter that was never seen, the successful Consumes of
/// any serialized history return exactly 0, 1, ..., K-1 in that order, where
/// K is how many there were: no value twice and none skipped. The file then
/// holds K, or is still absent when K is 0.
pub proof fn lemma_consumes_from_fresh(ops: Seq<Op>)
    requires
        count_consumes(ops) <= u64::MAX,
    ensures
        consumed_values(None, ops) == Seq::new(count_consumes(ops), |i: int| i as u64),
        consumed_values(None, ops).no_duplicates(),
        consumed_values(None, ops).to_multiset() == Seq::new(
            count_consumes(ops),
            |i: int| i as u64,
        ).to_multiset(),
        count_consumes(ops) == 0 ==> run(None, ops) is None,
        count_consumes(ops) > 0 ==> run(None, ops) == Some(decimal_digits(count_consumes(ops))),
    decreases ops.len(),
{
    let k = count_consumes(ops);
    if ops.len() > 0 {
        let init = ops.drop_last();
        lemma_consumes_from_fresh(init);
        let k0 = count_consumes(init);
        let prev = run(None, init);
        if k0 > 0 {
            lemma_decimal_round_trip(k0 as u64);
        }
        assert(stored_value(prev) == Ok::<u64, crate::decimal::ParseError>(k0 as u64));
        if ops.last() is Consume {
            assert(consume_spec(prev) == Ok::<u64, StoreError>(k0 as u64));
            assert(Seq::new(k, |i: int| i as u64) =~= Seq::new(k0, |i: int| i as u64).push(
                k0 as u64,
            ));
        }
    }
    let s = consumed_values(None, ops);
    assert(s =~= Seq::new(k, |i: int| i as u64));
    assert forall|a: int, b: int| 0 <= a < s.len() && 0 <= b < s.len() && a != b implies s[a]
        != s[b] by {}
}

/// N Consumes in a row on a never-seen counter return 0, 1, ..., N-1 and
/// leave the file holding the decimal rendering of N (absent when N is 0).
pub proof fn lemma_fresh_consumes(n: nat)
    requires
        n <= u64::MAX,
    ensures
        consumed_values(None, consumes(n)) == Seq::new(n, |i: int| i as u64),
        n > 0 ==> run(None, consumes(n)) == Some(decimal_digits(n)),
        n == 0 ==> run(None, consumes(n)) is None,
{
    lemma_count_consumes(n);
    lemma_consumes_from_fresh(consumes(n));
}

/// `consumes(n)` holds `n` Consumes.
pub proof fn lemma_count_consumes(n: nat)
    ensures
        count_consumes(consumes(n)) == n,
    decreases n,
{
    if n > 0 {
        lemma_count_consumes((n - 1) as nat);
        assert(consumes(n).drop_last() =~= consumes((n - 1) as nat));
    }
}

/// A value written out of band in canonical decimal is what the next Peek
/// returns; the next Consume returns it too and leaves its successor on disk,
/// for every value below `u64::MAX` (at the maximum, Consume is an overflow).
pub proof fn lemma_out_of_band_round_trip(v: u64)
    ensures
        peek_spec(Some(decimal_digits(v as nat))) == Ok::<u64, StoreError>(v),
        v < u64::MAX ==> consume_spec(Some(decimal_digits(v as nat))) == Ok::<u64, StoreError>(v),
        v < u64::MAX ==> after_consume(Some(decimal_digits(v as nat))) == Some(
            decimal_digits(v as nat + 1),
        ),
        v == u64::MAX ==> consume_spec(Some(decimal_digits(v as nat))) == Err::<u64, StoreError>(
            StoreError::Overflow,
        ),
        v == u64::MAX ==> after_consume(Some(decimal_digits(v as nat))) == Some(
            decimal_digits(v as nat),
        ),
{
    lemma_decimal_round_trip(v);
}

} // verus!
