//! Truth tables of N-input logic gates (OR and XOR).
//!
//! A table has `2^n` rows. Row `i` holds the `n` input bits of `i`, least
//! significant bit first, each as `0` or `1`, and a one-element target.

use vstd::prelude::*;
use vstd::arithmetic::power2::{pow2, lemma_pow2_unfold, lemma_pow2_pos};
use crate::error::GateLearnerError;
use crate::text::{decimal, decimal_text};

verus! {

/// One row of a truth table: the input bits and the target bits.
pub type Sample = (Vec<u8>, Vec<u8>);

/// The largest number of inputs a truth table may have.
pub const MAX_INPUTS: usize = 19;

/// The `n` input bits of row `i`, least significant bit first.
pub open spec fn input_row(i: nat, n: nat) -> Seq<u8>
    decreases n,
{
    if n == 0 {
        Seq::empty()
    } else {
        seq![(i % 2) as u8] + input_row(i / 2, (n - 1) as nat)
    }
}

/// How many entries of `row` are `1`.
pub open spec fn count_ones(row: Seq<u8>) -> nat
    decreases row.len(),
{
    if row.len() == 0 {
        0
    } else {
        count_ones(row.drop_last()) + (if row.last() == 1 { 1nat } else { 0nat })
    }
}

/// The OR gate: `1` when any input is `1`, else `0`.
pub open spec fn or_output(row: Seq<u8>) -> u8 {
    if row.contains(1u8) { 1 } else { 0 }
}

/// The XOR gate (parity): `1` when the number of `1` inputs is odd, else `0`.
pub open spec fn xor_output(row: Seq<u8>) -> u8 {
    if count_ones(row) % 2 == 1 { 1 } else { 0 }
}

/// The truth table of the n-input OR gate.
pub open spec fn or_table(n: nat) -> Seq<(Seq<u8>, Seq<u8>)> {
    Seq::new(pow2(n), |i: int| (input_row(i as nat, n), seq![or_output(input_row(i as nat, n))]))
}

/// The truth table of the n-input XOR gate.
pub open spec fn xor_table(n: nat) -> Seq<(Seq<u8>, Seq<u8>)> {
    Seq::new(pow2(n), |i: int| (input_row(i as nat, n), seq![xor_output(input_row(i as nat, n))]))
}

/// What a table of `Vec`s holds, as sequences.
pub open spec fn table_view(d: Seq<Sample>) -> Seq<(Seq<u8>, Seq<u8>)> {
    d.map_values(|s: Sample| (s.0@, s.1@))
}

/// The text of the error for a table with too many inputs.
pub open spec fn too_many_inputs_text(inputs: nat) -> Seq<char> {
    "N-input value ("@ + decimal(inputs) + ") is too large, max supported is 19."@
}

/// The result that a generator gives for `inputs` when it succeeds with `table`.
pub open spec fn generated(r: Result<Vec<Sample>, GateLearnerError>, inputs: usize, table: Seq<(Seq<u8>, Seq<u8>)>) -> bool {
    &&& (r is Ok <==> inputs <= MAX_INPUTS)
    &&& r matches Ok(d) ==> table_view(d@) == table
    &&& r matches Err(e) ==> e matches GateLearnerError::InvalidArchitecture(m) && m@ == too_many_inputs_text(inputs as nat)
}

pub proof fn lemma_input_row_len(i: nat, n: nat)
    ensures
        input_row(i, n).len() == n,
    decreases n,
{
    if n > 0 {
        lemma_input_row_len(i / 2, (n - 1) as nat);
    }
}

fn too_many_inputs(inputs: usize) -> (e: GateLearnerError)
    ensures
        e matches GateLearnerError::InvalidArchitecture(m) && m@ == too_many_inputs_text(inputs as nat),
{
    let mut m = String::from_str("N-input value (");
    let d = decimal_text(inputs);
    m.append(d.as_str());
    m.append(") is too large, max supported is 19.");
    GateLearnerError::InvalidArchitecture(m)
}

/// The input bits of row `i` of an `inputs`-input table, with the number of
/// `1` bits among them.
fn row_bits(i: usize, inputs: usize) -> (res: (Vec<u8>, usize))
    ensures
        res.0@ == input_row(i as nat, inputs as nat),
        res.1 == count_ones(res.0@),
{
    let mut input: Vec<u8> = Vec::with_capacity(inputs);
    let mut rest: usize = i;
    let mut ones_count: usize = 0;
    for bit in 0..inputs
        invariant
            input@.len() == bit,
            input@ + input_row(rest as nat, (inputs - bit) as nat) == input_row(i as nat, inputs as nat),
            ones_count == count_ones(input@),
            ones_count <= bit,
    {
        let ghost before = input@;
        let val: u8 = if rest & 1 == 1 {
            ones_count += 1;
            1
        } else {
            0
        };
        assert(rest & 1 == rest % 2) by (bit_vector);
        assert(rest >> 1 == rest / 2) by (bit_vector);
        input.push(val);
        proof {
            assert(input@.drop_last() == before);
            assert(input_row(rest as nat, (inputs - bit) as nat)
                == seq![(rest % 2) as u8] + input_row((rest / 2) as nat, (inputs - bit - 1) as nat));
            assert(before + input_row(rest as nat, (inputs - bit) as nat)
                == input@ + input_row((rest / 2) as nat, (inputs - bit - 1) as nat));
        }
        rest = rest >> 1;
    }
    assert(input@ + input_row(rest as nat, 0) == input@);
    (input, ones_count)
}

/// Generates the truth table of the N-input OR gate.
///
/// The target is `1` if any input is `1`, otherwise `0`.
/// Fails with `InvalidArchitecture` when `inputs` is 20 or more.
pub fn generate_or(inputs: usize) -> (r: Result<Vec<Sample>, GateLearnerError>)
    ensures
        generated(r, inputs, or_table(inputs as nat)),
{
    if inputs > MAX_INPUTS {
        return Err(too_many_inputs(inputs));
    }
    let num_samples: usize = 1usize << inputs;
    proof {
        vstd::bits::lemma_usize_pow2_no_overflow(inputs as nat);
        vstd::bits::lemma_usize_shl_is_mul(1, inputs);
    }
    let mut dataset: Vec<Sample> = Vec::with_capacity(num_samples);
    for i in 0..num_samples
        invariant
            num_samples == pow2(inputs as nat),
            dataset@.len() == i,
            forall|k: int| 0 <= k < i ==> table_view(dataset@)[k] == #[trigger] or_table(inputs as nat)[k],
    {
        let (input, ones_count) = row_bits(i, inputs);
        let any_one = ones_count > 0;
        proof {
            lemma_count_ones_contains(input@);
        }
        let target: Vec<u8> = vec![if any_one { 1u8 } else { 0u8 }];
        dataset.push((input, target));
    }
    proof {
        assert(table_view(dataset@) =~= or_table(inputs as nat));
    }
    Ok(dataset)
}

/// Generates the truth table of the N-input XOR gate (the parity problem).
///
/// The target is `1` if the number of `1` inputs is odd, otherwise `0`.
/// Fails with `InvalidArchitecture` when `inputs` is 20 or more.
pub fn generate_xor(inputs: usize) -> (r: Result<Vec<Sample>, GateLearnerError>)
    ensures
        generated(r, inputs, xor_table(inputs as nat)),
{
    if inputs > MAX_INPUTS {
        return Err(too_many_inputs(inputs));
    }
    let num_samples: usize = 1usize << inputs;
    proof {
        vstd::bits::lemma_usize_pow2_no_overflow(inputs as nat);
        vstd::bits::lemma_usize_shl_is_mul(1, inputs);
    }
    let mut dataset: Vec<Sample> = Vec::with_capacity(num_samples);
    for i in 0..num_samples
        invariant
            num_samples == pow2(inputs as nat),
            dataset@.len() == i,
            forall|k: int| 0 <= k < i ==> table_view(dataset@)[k] == #[trigger] xor_table(inputs as nat)[k],
    {
        let (input, ones_count) = row_bits(i, inputs);
        let target: Vec<u8> = vec![if ones_count % 2 == 1 { 1u8 } else { 0u8 }];
        dataset.push((input, target));
    }
    proof {
        assert(table_view(dataset@) =~= xor_table(inputs as nat));
    }
    Ok(dataset)
}

/// A row has a `1` exactly when its count of ones is positive.
pub proof fn lemma_count_ones_contains(row: Seq<u8>)
    ensures
        row.contains(1u8) <==> count_ones(row) > 0,
    decreases row.len(),
{
    if row.len() > 0 {
        lemma_count_ones_contains(row.drop_last());
        if row.drop_last().contains(1u8) {
            let k = choose|k: int| 0 <= k < row.drop_last().len() && row.drop_last()[k] == 1u8;
            assert(row[k] == 1u8);
        }
        if row.last() == 1u8 {
            assert(row[row.len() - 1] == 1u8);
        }
        if row.contains(1u8) {
            let k = choose|k: int| 0 <= k < row.len() && row[k] == 1u8;
            if k < row.len() - 1 {
                assert(row.drop_last()[k] == 1u8);
            }
        }
    }
}

/// The number whose bits, least significant first, are `row`.
pub open spec fn row_value(row: Seq<u8>) -> nat
    decreases row.len(),
{
    if row.len() == 0 {
        0
    } else {
        (row[0] as nat) + 2 * row_value(row.drop_first())
    }
}

/// Every entry of `row` is `0` or `1`.
pub open spec fn is_bit_row(row: Seq<u8>) -> bool {
    forall|b: int| 0 <= b < row.len() ==> row[b] == 0 || row[b] == 1
}

/// Reading the bits of a row back gives its index.
proof fn lemma_row_value_of_input_row(i: nat, n: nat)
    requires
        i < pow2(n),
    ensures
        row_value(input_row(i, n)) == i,
    decreases n,
{
    lemma_input_row_len(i, n);
    if n == 0 {
        assert(pow2(0) == 1) by { vstd::arithmetic::power2::lemma2_to64(); }
    } else {
        lemma_pow2_unfold(n);
        lemma_row_value_of_input_row(i / 2, (n - 1) as nat);
        let r = input_row(i, n);
        assert(r.drop_first() == input_row(i / 2, (n - 1) as nat));
        assert(r[0] == (i % 2) as u8);
    }
}

/// A bit row of length `n` is the input row of its value, and that value is below `2^n`.
proof fn lemma_input_row_of_row_value(row: Seq<u8>)
    requires
        is_bit_row(row),
    ensures
        row_value(row) < pow2(row.len()),
        input_row(row_value(row), row.len()) == row,
    decreases row.len(),
{
    let n = row.len();
    if n == 0 {
        assert(pow2(0) == 1) by { vstd::arithmetic::power2::lemma2_to64(); }
        assert(input_row(0, 0) =~= row);
    } else {
        lemma_pow2_unfold(n);
        let rest = row.drop_first();
        assert(is_bit_row(rest)) by {
            assert forall|b: int| 0 <= b < rest.len() implies rest[b] == 0 || rest[b] == 1 by {
                assert(rest[b] == row[b + 1]);
            }
        }
        lemma_input_row_of_row_value(rest);
        let v = row_value(row);
        assert(v % 2 == row[0] as nat);
        assert(v / 2 == row_value(rest));
        assert(input_row(v, n) =~= seq![(v % 2) as u8] + input_row(v / 2, (n - 1) as nat));
        assert(input_row(v, n) =~= row);
    }
}

/// Input `b` of row `i` is bit `b` of `i`: `(i / 2^b) % 2`.
pub proof fn lemma_input_is_bit_of_index(i: nat, n: nat, b: nat)
    requires
        b < n,
    ensures
        input_row(i, n)[b as int] == ((i / pow2(b)) % 2) as u8,
    decreases n,
{
    if b == 0 {
        assert(pow2(0) == 1) by { vstd::arithmetic::power2::lemma2_to64(); }
    } else {
        lemma_input_is_bit_of_index(i / 2, (n - 1) as nat, (b - 1) as nat);
        lemma_input_row_len(i / 2, (n - 1) as nat);
        lemma_pow2_unfold(b);
        lemma_pow2_pos((b - 1) as nat);
        vstd::arithmetic::div_mod::lemma_div_denominator(i as int, 2, pow2((b - 1) as nat) as int);
        assert(input_row(i, n)[b as int] == input_row(i / 2, (n - 1) as nat)[b - 1]);
    }
}

/// The rows of the n-input tables are pairwise distinct.
pub proof fn lemma_table_rows_distinct(n: nat, i: int, j: int)
    requires
        0 <= i < pow2(n),
        0 <= j < pow2(n),
        i != j,
    ensures
        or_table(n)[i].0 != or_table(n)[j].0,
        xor_table(n)[i].0 != xor_table(n)[j].0,
{
    lemma_row_value_of_input_row(i as nat, n);
    lemma_row_value_of_input_row(j as nat, n);
}

/// Every combination of `n` input bits is a row of the n-input tables.
pub proof fn lemma_table_covers_all_inputs(n: nat, row: Seq<u8>)
    requires
        row.len() == n,
        is_bit_row(row),
    ensures
        0 <= row_value(row) < pow2(n),
        or_table(n)[row_value(row) as int].0 == row,
        xor_table(n)[row_value(row) as int].0 == row,
{
    lemma_input_row_of_row_value(row);
}

/// The OR and XOR tables have the same rows of inputs, in the same order.
pub proof fn lemma_or_xor_same_inputs(n: nat, i: int)
    requires
        0 <= i < pow2(n),
    ensures
        or_table(n)[i].0 == xor_table(n)[i].0,
        or_table(n).len() == xor_table(n).len(),
{
}

/// A generator succeeds exactly for 19 inputs or fewer; on success the table
/// has one row per combination of the inputs, `2^inputs` rows.
pub proof fn lemma_generated_limits(r: Result<Vec<Sample>, GateLearnerError>, inputs: usize, n: nat)
    requires
        generated(r, inputs, or_table(n)) || generated(r, inputs, xor_table(n)),
        n == inputs,
    ensures
        r is Ok <==> inputs < 20,
        r matches Ok(d) ==> d@.len() == pow2(n),
{
    if let Ok(d) = r {
        assert(table_view(d@).len() == d@.len());
    }
}

/// The number of `1` bits in the binary form of `i`.
pub open spec fn popcount(i: nat) -> nat
    decreases i,
{
    if i == 0 { 0 } else { i % 2 + popcount(i / 2) }
}

/// Counting ones: none in an empty row, one per `1` entry, and the count of a
/// joined row is the sum of the counts of its parts; never more than the length.
pub proof fn lemma_count_ones_laws(a: Seq<u8>, b: Seq<u8>, x: u8)
    ensures
        count_ones(Seq::empty()) == 0,
        count_ones(seq![x]) == if x == 1 { 1nat } else { 0nat },
        count_ones(a + b) == count_ones(a) + count_ones(b),
        count_ones(a) <= a.len(),
    decreases b.len(),
{
    assert(seq![x].drop_last() =~= Seq::<u8>::empty());
    lemma_count_ones_bounded(a);
    if b.len() == 0 {
        assert(a + b =~= a);
    } else {
        lemma_count_ones_laws(a, b.drop_last(), x);
        assert((a + b).drop_last() =~= a + b.drop_last());
        assert((a + b).last() == b.last());
    }
}

proof fn lemma_count_ones_bounded(a: Seq<u8>)
    ensures
        count_ones(a) <= a.len(),
    decreases a.len(),
{
    if a.len() > 0 {
        lemma_count_ones_bounded(a.drop_last());
    }
}

/// The XOR target is `1` exactly when the row has an odd number of ones, and
/// `0` exactly when it has an even number.
pub proof fn lemma_xor_output_is_parity(row: Seq<u8>)
    ensures
        xor_output(row) == 1 <==> count_ones(row) % 2 == 1,
        xor_output(row) == 0 <==> count_ones(row) % 2 == 0,
{
}

/// The ones among the inputs of row `i` are the `1` bits of `i`.
pub proof fn lemma_row_ones_are_index_bits(i: nat, n: nat)
    requires
        i < pow2(n),
    ensures
        count_ones(input_row(i, n)) == popcount(i),
    decreases n,
{
    if n == 0 {
        assert(pow2(0) == 1) by { vstd::arithmetic::power2::lemma2_to64(); }
        assert(input_row(0, 0) =~= Seq::<u8>::empty());
        lemma_count_ones_laws(Seq::empty(), Seq::empty(), 0);
    } else {
        lemma_pow2_unfold(n);
        lemma_row_ones_are_index_bits(i / 2, (n - 1) as nat);
        lemma_count_ones_laws(seq![(i % 2) as u8], input_row(i / 2, (n - 1) as nat), (i % 2) as u8);
        assert(popcount(i) == i % 2 + popcount(i / 2));
    }
}

/// The XOR target of row `i` is the parity of the number of `1` bits of `i`.
pub proof fn lemma_xor_table_is_index_parity(n: nat, i: int)
    requires
        0 <= i < pow2(n),
    ensures
        xor_table(n)[i].1 == seq![(popcount(i as nat) % 2) as u8],
        xor_table(n)[i].1[0] == 1 <==> popcount(i as nat) % 2 == 1,
{
    lemma_row_ones_are_index_bits(i as nat, n);
    lemma_xor_output_is_parity(input_row(i as nat, n));
}

/// The OR target is `0` on the first row (all inputs `0`) and `1` on every other row.
pub proof fn lemma_or_zero_only_first_row(n: nat, i: int)
    requires
        0 <= i < pow2(n),
    ensures
        or_table(n)[i].1 == seq![if i == 0 { 0u8 } else { 1u8 }],
{
    lemma_or_output_of_index(i as nat, n);
}

proof fn lemma_or_output_of_index(i: nat, n: nat)
    requires
        i < pow2(n),
    ensures
        or_output(input_row(i, n)) == if i == 0 { 0u8 } else { 1u8 },
    decreases n,
{
    lemma_input_row_len(i, n);
    if n == 0 {
        assert(pow2(0) == 1) by { vstd::arithmetic::power2::lemma2_to64(); }
        assert(!input_row(0, 0).contains(1u8));
    } else {
        lemma_pow2_unfold(n);
        lemma_or_output_of_index(i / 2, (n - 1) as nat);
        let r = input_row(i, n);
        let rest = input_row(i / 2, (n - 1) as nat);
        lemma_input_row_len(i / 2, (n - 1) as nat);
        assert(r == seq![(i % 2) as u8] + rest);
        if i == 0 {
            assert(!rest.contains(1u8));
            assert(!r.contains(1u8)) by {
                if r.contains(1u8) {
                    let k = choose|k: int| 0 <= k < r.len() && r[k] == 1u8;
                    if k > 0 {
                        assert(rest[k - 1] == 1u8);
                    }
                }
            }
        } else if i % 2 == 1 {
            assert(r[0] == 1u8);
        } else {
            assert(i / 2 != 0);
            assert(rest.contains(1u8));
            let k = choose|k: int| 0 <= k < rest.len() && rest[k] == 1u8;
            assert(r[k + 1] == 1u8);
        }
    }
}

} // verus!
