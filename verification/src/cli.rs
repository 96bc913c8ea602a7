//! The decisions of the training program that do not depend on the network's
//! numbers: which truth table a gate learns from, and on which epochs progress
//! is reported.

use vstd::prelude::*;
use crate::dataset::{
    generate_or, generate_xor, generated, or_table, xor_table, Sample, popcount,
    lemma_or_zero_only_first_row, lemma_xor_table_is_index_parity,
};
use vstd::arithmetic::power2::pow2;
use crate::error::GateLearnerError;

verus! {

/// Type of logic gate.
#[derive(Debug, Clone, Copy, PartialEq, Eq, Structural)]
pub enum GateType {
    /// OR logic gate.
    Or,
    /// XOR logic gate.
    Xor,
}

/// The truth table of a gate.
pub open spec fn gate_table(gate: GateType, n: nat) -> Seq<(Seq<u8>, Seq<u8>)> {
    match gate {
        GateType::Or => or_table(n),
        GateType::Xor => xor_table(n),
    }
}

/// Generates the truth table that a gate is trained on.
pub fn generate_dataset(gate: GateType, inputs: usize) -> (r: Result<Vec<Sample>, GateLearnerError>)
    ensures
        generated(r, inputs, gate_table(gate, inputs as nat)),
{
    match gate {
        GateType::Or => generate_or(inputs),
        GateType::Xor => generate_xor(inputs),
    }
}

/// The spacing of progress reports: a tenth of the epochs, at least one.
pub open spec fn report_interval(epochs: nat) -> nat {
    if epochs / 10 >= 1 { epochs / 10 } else { 1 }
}

/// Progress is reported on every `report_interval`-th epoch, counting from
/// epoch 0, and on the last epoch.
pub fn is_report_epoch(epoch: usize, epochs: usize) -> (b: bool)
    requires
        epoch < epochs,
    ensures
        b == ((epoch as nat) % report_interval(epochs as nat) == 0 || epoch == epochs - 1),
{
    let tenth = epochs / 10;
    let interval = if tenth >= 1 { tenth } else { 1 };
    epoch % interval == 0 || epoch == epochs - 1
}

/// The OR gate gets the OR table and the XOR gate the XOR table, for every
/// number of inputs; row by row, the OR target is `0` only on the all-zero
/// first row, and the XOR target is the parity of the `1` bits of the row index.
pub proof fn lemma_gate_table_is_its_gate(n: nat, i: int)
    requires
        0 <= i < pow2(n),
    ensures
        gate_table(GateType::Or, n) == or_table(n),
        gate_table(GateType::Xor, n) == xor_table(n),
        gate_table(GateType::Or, n)[i].1 == seq![if i == 0 { 0u8 } else { 1u8 }],
        gate_table(GateType::Xor, n)[i].1 == seq![(popcount(i as nat) % 2) as u8],
        gate_table(GateType::Or, n)[i].0 == gate_table(GateType::Xor, n)[i].0,
{
    lemma_or_zero_only_first_row(n, i);
    lemma_xor_table_is_index_parity(n, i);
}

/// Reports are a tenth of the run apart, rounded down: for a run of 10 epochs
/// or more, ten intervals fit in it and eleven do not; a shorter run reports
/// every epoch.
pub proof fn lemma_report_interval_is_a_tenth(epochs: nat)
    ensures
        report_interval(epochs) >= 1,
        epochs >= 10 ==> 10 * report_interval(epochs) <= epochs < 10 * report_interval(epochs) + 10,
        epochs < 10 ==> report_interval(epochs) == 1,
{
}

/// For a run of 10 epochs or more, an epoch is reported exactly when it is the
/// last one or a whole multiple of `m`, the tenth of the run rounded down.
pub proof fn lemma_reported_epochs(epoch: nat, epochs: nat, m: nat)
    requires
        epochs >= 10,
        epoch < epochs,
        10 * m <= epochs < 10 * m + 10,
    ensures
        (epoch % report_interval(epochs) == 0 || epoch == epochs - 1)
            <==> ((epoch / m) * m == epoch || epoch == epochs - 1),
{
    lemma_report_interval_is_a_tenth(epochs);
    assert(report_interval(epochs) == m);
    vstd::arithmetic::div_mod::lemma_fundamental_div_mod(epoch as int, m as int);
}

} // verus!
