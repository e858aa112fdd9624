//! JSON values out of a stream of bytes that comes in pieces.
use serde_json::Value;
use vstd::prelude::*;

use crate::json::{
    all_space, first_value, is_closing, is_opening, is_space, next_value, starts_delimited,
};

verus! {

/// The JSON values at the start of some bytes, up to the first that is not there as a whole.
pub open spec fn values_in(bytes: Seq<u8>) -> Seq<Value>
    decreases bytes.len(),
{
    let (value, n) = first_value(bytes);
    if value is Some && 0 < n <= bytes.len() {
        seq![value->Some_0] + values_in(bytes.skip(n as int))
    } else {
        seq![]
    }
}

/// The bytes behind the JSON values at the start of some bytes.
pub open spec fn rest_of(bytes: Seq<u8>) -> Seq<u8>
    decreases bytes.len(),
{
    let (value, n) = first_value(bytes);
    if value is Some && 0 < n <= bytes.len() {
        rest_of(bytes.skip(n as int))
    } else {
        bytes.skip(n as int)
    }
}

/// Whether nothing that follows can change how these bytes are read: each value in them is
/// closed by its own last byte or followed by another, and only white space was skipped behind
/// the last.
pub open spec fn is_settled(bytes: Seq<u8>) -> bool
    decreases bytes.len(),
{
    let (value, n) = first_value(bytes);
    if value is Some && 0 < n <= bytes.len() {
        (n < bytes.len() || is_closing(bytes[n - 1])) && is_settled(bytes.skip(n as int))
    } else {
        all_space(bytes.take(n as int))
    }
}

/// Whether the JSON values at the start of some bytes, and what follows them, are strings, arrays
/// or objects, as far as they are there.
pub open spec fn is_delimited(bytes: Seq<u8>) -> bool
    decreases bytes.len(),
{
    let (value, n) = first_value(bytes);
    &&& starts_delimited(bytes)
    &&& value is Some && 0 < n <= bytes.len() ==> is_delimited(bytes.skip(n as int))
}

/// How bytes start does not depend on what follows them.
proof fn lemma_start(bytes: Seq<u8>, more: Seq<u8>)
    requires
        starts_delimited(bytes + more),
    ensures
        starts_delimited(bytes),
{
    assert forall|i: int|
        0 <= i < bytes.len() && all_space(bytes.take(i)) && !is_space(
            #[trigger] bytes[i],
        ) implies is_opening(bytes[i]) by {
        assert((bytes + more).take(i) =~= bytes.take(i));
        assert((bytes + more)[i] == bytes[i]);
    }
}

/// How bytes start does not depend on the white space before them.
proof fn lemma_start_behind_space(bytes: Seq<u8>, n: int)
    requires
        starts_delimited(bytes),
        0 <= n <= bytes.len(),
        all_space(bytes.take(n)),
    ensures
        starts_delimited(bytes.skip(n)),
{
    let rest = bytes.skip(n);
    assert forall|i: int|
        0 <= i < rest.len() && all_space(rest.take(i)) && !is_space(
            #[trigger] rest[i],
        ) implies is_opening(rest[i]) by {
        assert forall|k: int| 0 <= k < n + i implies is_space(
            #[trigger] bytes.take(n + i)[k],
        ) by {
            if k < n {
                assert(bytes.take(n)[k] == bytes[k]);
            } else {
                assert(rest.take(i)[k - n] == bytes[k]);
            }
        }
        assert(all_space(bytes.take(n + i)));
        assert(bytes[n + i] == rest[i]);
    }
}

/// Whether bytes with more behind them read as some values and what the rest with more behind it
/// reads as.
spec fn reads_on(all: Seq<u8>, values: Seq<Value>, rest: Seq<u8>, more: Seq<u8>) -> bool {
    &&& values_in(all + more) == values + values_in(rest + more)
    &&& rest_of(all + more) == rest_of(rest + more)
}

/// Whether the rest of some bytes is delimited if all of them are, and settles them.
spec fn stays_delimited(all: Seq<u8>, rest: Seq<u8>, more: Seq<u8>) -> bool {
    is_delimited(all + more) ==> is_delimited(rest + more) && (is_settled(rest) ==> is_settled(all))
}

proof fn lemma_value_read(
    all: Seq<u8>,
    values: Seq<Value>,
    rest: Seq<u8>,
    more: Seq<u8>,
    value: Value,
    n: nat,
)
    requires
        reads_on(all, values, rest, more),
        0 < n <= rest.len(),
        first_value(rest + more) == (Some(value), n),
    ensures
        reads_on(all, values.push(value), rest.skip(n as int), more),
{
    assert((rest + more).skip(n as int) =~= rest.skip(n as int) + more);
    assert(values + (seq![value] + values_in(rest.skip(n as int) + more)) =~= values.push(value)
        + values_in(rest.skip(n as int) + more));
}

proof fn lemma_value_delimited(
    all: Seq<u8>,
    rest: Seq<u8>,
    more: Seq<u8>,
    value: Value,
    n: nat,
)
    requires
        stays_delimited(all, rest, more),
        0 < n <= rest.len(),
        first_value(rest) == (Some(value), n),
        starts_delimited(rest) ==> is_closing(rest[n - 1]),
        n < rest.len() || is_closing(rest[n - 1]) ==> first_value(rest + more) == (Some(value), n),
    ensures
        stays_delimited(all, rest.skip(n as int), more),
{
    if is_delimited(all + more) {
        lemma_start(rest, more);
        assert((rest + more).skip(n as int) =~= rest.skip(n as int) + more);
    }
}

/// What the last step of reading leaves, with more behind it.
spec fn is_dropped_space(rest: Seq<u8>, n: nat, more: Seq<u8>) -> bool {
    let later = rest.skip(n as int) + more;
    &&& first_value(rest + more) == (first_value(later).0, n + first_value(later).1)
    &&& first_value(later).1 <= later.len()
    &&& first_value(later).0 is Some ==> first_value(later).1 > 0
}

proof fn lemma_end_read(
    all: Seq<u8>,
    values: Seq<Value>,
    rest: Seq<u8>,
    more: Seq<u8>,
    n: nat,
)
    requires
        reads_on(all, values, rest, more),
        n <= rest.len(),
        is_dropped_space(rest, n, more),
    ensures
        reads_on(all, values, rest.skip(n as int), more),
{
    let later = rest.skip(n as int) + more;
    let m = first_value(later).1;
    assert((rest + more).skip((n + m) as int) =~= later.skip(m as int));
}

proof fn lemma_end_delimited(all: Seq<u8>, rest: Seq<u8>, more: Seq<u8>, n: nat)
    requires
        stays_delimited(all, rest, more),
        n <= rest.len(),
        first_value(rest) == (None::<Value>, n),
        starts_delimited(rest) ==> all_space(rest.take(n as int)),
        all_space(rest.take(n as int)) ==> is_dropped_space(rest, n, more),
    ensures
        is_delimited(all + more) ==> is_settled(all) && is_delimited(rest.skip(n as int) + more),
{
    if is_delimited(all + more) {
        let later = rest.skip(n as int) + more;
        let m = first_value(later).1;
        lemma_start(rest, more);
        assert((rest + more).take(n as int) =~= rest.take(n as int));
        assert((rest + more).skip(n as int) =~= later);
        lemma_start_behind_space(rest + more, n as int);
        assert((rest + more).skip((n + m) as int) =~= later.skip(m as int));
    }
}

/// Reads the JSON values at the start of some bytes, up to the first that is not there as a
/// whole, and says how many bytes are done with.
pub fn read_values(bytes: &[u8]) -> (r: (Vec<Value>, usize))
    ensures
        r.0@ == values_in(bytes@),
        r.1 <= bytes@.len(),
        bytes@.skip(r.1 as int) == rest_of(bytes@),
        is_settled(bytes@) ==> forall|more: Seq<u8>|
            #![trigger bytes@ + more]
            values_in(bytes@ + more) == values_in(bytes@) + values_in(rest_of(bytes@) + more)
                && rest_of(bytes@ + more) == rest_of(rest_of(bytes@) + more),
        forall|more: Seq<u8>| #[trigger]
            is_delimited(bytes@ + more) ==> is_settled(bytes@) && is_delimited(
                rest_of(bytes@) + more,
            ),
{
    let ghost all = bytes@;
    let mut values: Vec<Value> = Vec::new();
    let mut at: usize = 0;
    proof {
        assert(all.skip(0) =~= all);
        assert forall|more: Seq<u8>| #[trigger] reads_on(all, seq![], all, more) by {
            assert(Seq::<Value>::empty() + values_in(all + more) =~= values_in(all + more));
        }
    }
    loop
        invariant
            all == bytes@,
            at <= all.len(),
            values_in(all) == values@ + values_in(all.skip(at as int)),
            rest_of(all) == rest_of(all.skip(at as int)),
            is_settled(all) ==> is_settled(all.skip(at as int)),
            is_settled(all) ==> forall|more: Seq<u8>| #[trigger]
                reads_on(all, values@, all.skip(at as int), more),
            forall|more: Seq<u8>| #[trigger] stays_delimited(all, all.skip(at as int), more),
        decreases all.len() - at,
    {
        let ghost rest = all.skip(at as int);
        let ghost earlier = values@;
        let (value, n) = next_value(vstd::slice::slice_subrange(bytes, at, bytes.len()));
        assert(all.subrange(at as int, all.len() as int) =~= rest);
        at = at + n;
        assert(all.skip(at as int) =~= rest.skip(n as int));
        match value {
            Some(value) => {
                values.push(value);
                proof {
                    assert(values@ =~= earlier + seq![value]);
                    if is_settled(all) {
                        assert forall|more: Seq<u8>| #[trigger]
                            reads_on(all, values@, all.skip(at as int), more) by {
                            assert(reads_on(all, earlier, rest, more));
                            lemma_value_read(all, earlier, rest, more, value, n as nat);
                        }
                    }
                    assert forall|more: Seq<u8>| #[trigger]
                        stays_delimited(all, all.skip(at as int), more) by {
                        assert(stays_delimited(all, rest, more));
                        lemma_value_delimited(all, rest, more, value, n as nat);
                    }
                }
            },
            None => {
                proof {
                    assert forall|more: Seq<u8>| all_space(
                        rest.take(n as int),
                    ) implies #[trigger] is_dropped_space(rest, n as nat, more) by {}
                    if is_settled(all) {
                        assert forall|more: Seq<u8>| reads_on(
                            all,
                            values@,
                            all.skip(at as int),
                            more,
                        ) by {
                            assert(reads_on(all, earlier, rest, more));
                            lemma_end_read(all, earlier, rest, more, n as nat);
                        }
                        assert forall|more: Seq<u8>|
                            #![trigger all + more]
                            values_in(all + more) == values_in(all) + values_in(rest_of(all) + more)
                                && rest_of(all + more) == rest_of(rest_of(all) + more) by {
                            assert(reads_on(all, values@, all.skip(at as int), more));
                        }
                    }
                    assert forall|more: Seq<u8>| #[trigger]
                        is_delimited(all + more) implies is_settled(all) && is_delimited(
                        rest_of(all) + more,
                    ) by {
                        assert(stays_delimited(all, rest, more));
                        lemma_end_delimited(all, rest, more, n as nat);
                    }
                }
                return (values, at);
            },
        }
    }
}

} // verus!
