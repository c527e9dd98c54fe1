//! Benchmark report: the timings that a run collects, and how measured
//! operations are folded into them.

use vstd::prelude::*;

verus! {

/// Parameters of a benchmark run.
#[derive(Debug)]
pub struct FlarpInputs {
    pub sector_size_bytes: usize,
}

impl Default for FlarpInputs {
    fn default() -> (inputs: Self)
        ensures
            inputs.sector_size_bytes == 0,
    {
        FlarpInputs { sector_size_bytes: 0 }
    }
}

/// Timings of a benchmark run, in milliseconds.
#[derive(Debug)]
pub struct FlarpOutputs {
    pub encoding_cpu_time_ms: u64,
    pub encoding_wall_time_ms: u64,
    pub generate_tree_c_cpu_time_ms: u64,
    pub generate_tree_c_wall_time_ms: u64,
    pub porep_proof_gen_cpu_time_ms: u64,
    pub porep_proof_gen_wall_time_ms: u64,
    pub tree_r_last_cpu_time_ms: u64,
    pub tree_r_last_wall_time_ms: u64,
    pub comm_d_cpu_time_ms: u64,
    pub comm_d_wall_time_ms: u64,
    pub encode_window_time_all_cpu_time_ms: u64,
    pub encode_window_time_all_wall_time_ms: u64,
    pub window_comm_leaves_time_cpu_time_ms: u64,
    pub window_comm_leaves_time_wall_time_ms: u64,
    pub porep_commit_time_cpu_time_ms: u64,
    pub porep_commit_time_wall_time_ms: u64,
    pub post_inclusion_proofs_cpu_time_ms: u64,
    pub post_inclusion_proofs_time_ms: u64,
    pub post_finalize_ticket_cpu_time_ms: u64,
    pub post_finalize_ticket_time_ms: u64,
    pub post_read_challenged_range_cpu_time_ms: u64,
    pub post_read_challenged_range_time_ms: u64,
    pub post_partial_ticket_hash_cpu_time_ms: u64,
    pub post_partial_ticket_hash_time_ms: u64,
}

impl FlarpOutputs {
    /// The report in which no timing has been recorded yet.
    pub open spec fn zero() -> FlarpOutputs {
        FlarpOutputs {
            encoding_cpu_time_ms: 0,
            encoding_wall_time_ms: 0,
            generate_tree_c_cpu_time_ms: 0,
            generate_tree_c_wall_time_ms: 0,
            porep_proof_gen_cpu_time_ms: 0,
            porep_proof_gen_wall_time_ms: 0,
            tree_r_last_cpu_time_ms: 0,
            tree_r_last_wall_time_ms: 0,
            comm_d_cpu_time_ms: 0,
            comm_d_wall_time_ms: 0,
            encode_window_time_all_cpu_time_ms: 0,
            encode_window_time_all_wall_time_ms: 0,
            window_comm_leaves_time_cpu_time_ms: 0,
            window_comm_leaves_time_wall_time_ms: 0,
            porep_commit_time_cpu_time_ms: 0,
            porep_commit_time_wall_time_ms: 0,
            post_inclusion_proofs_cpu_time_ms: 0,
            post_inclusion_proofs_time_ms: 0,
            post_finalize_ticket_cpu_time_ms: 0,
            post_finalize_ticket_time_ms: 0,
            post_read_challenged_range_cpu_time_ms: 0,
            post_read_challenged_range_time_ms: 0,
            post_partial_ticket_hash_cpu_time_ms: 0,
            post_partial_ticket_hash_time_ms: 0,
        }
    }

    /// The timings after one more measurement: the two fields of the measured
    /// operation take its times, every other field stays.
    pub open spec fn record(self, m: OpMeasurement) -> FlarpOutputs {
        let cpu = m.cpu_millis();
        let wall = m.wall_millis();
        match m.op {
            Operation::AddPiece => self,
            Operation::GeneratePieceCommitment => self,
            Operation::GenerateTreeC => FlarpOutputs {
                generate_tree_c_cpu_time_ms: cpu,
                generate_tree_c_wall_time_ms: wall,
                ..self
            },
            Operation::GenerateTreeRLast => FlarpOutputs {
                tree_r_last_cpu_time_ms: cpu,
                tree_r_last_wall_time_ms: wall,
                ..self
            },
            Operation::CommD => FlarpOutputs {
                comm_d_cpu_time_ms: cpu,
                comm_d_wall_time_ms: wall,
                ..self
            },
            Operation::EncodeWindowTimeAll => FlarpOutputs {
                encode_window_time_all_cpu_time_ms: cpu,
                encode_window_time_all_wall_time_ms: wall,
                ..self
            },
            Operation::WindowCommLeavesTime => FlarpOutputs {
                window_comm_leaves_time_cpu_time_ms: cpu,
                window_comm_leaves_time_wall_time_ms: wall,
                ..self
            },
            Operation::PorepCommitTime => FlarpOutputs {
                porep_commit_time_cpu_time_ms: cpu,
                porep_commit_time_wall_time_ms: wall,
                ..self
            },
            Operation::PostInclusionProofs => FlarpOutputs {
                post_inclusion_proofs_cpu_time_ms: cpu,
                post_inclusion_proofs_time_ms: wall,
                ..self
            },
            Operation::PostFinalizeTicket => FlarpOutputs {
                post_finalize_ticket_cpu_time_ms: cpu,
                post_finalize_ticket_time_ms: wall,
                ..self
            },
            Operation::PostReadChallengedRange => FlarpOutputs {
                post_read_challenged_range_cpu_time_ms: cpu,
                post_read_challenged_range_time_ms: wall,
                ..self
            },
            Operation::PostPartialTicketHash => FlarpOutputs {
                post_partial_ticket_hash_cpu_time_ms: cpu,
                post_partial_ticket_hash_time_ms: wall,
                ..self
            },
        }
    }

    /// The timings after the measurements `ms`, taken in order.
    pub open spec fn record_all(self, ms: Seq<OpMeasurement>) -> FlarpOutputs
        decreases ms.len(),
    {
        if ms.len() == 0 {
            self
        } else {
            self.record_all(ms.drop_last()).record(ms.last())
        }
    }

    /// The pair (cpu, wall) that the report holds for `op`; `None` for an
    /// operation that the report has no fields for.
    pub open spec fn times_of(self, op: Operation) -> Option<(u64, u64)> {
        match op {
            Operation::AddPiece => None,
            Operation::GeneratePieceCommitment => None,
            Operation::GenerateTreeC => Some(
                (self.generate_tree_c_cpu_time_ms, self.generate_tree_c_wall_time_ms),
            ),
            Operation::GenerateTreeRLast => Some(
                (self.tree_r_last_cpu_time_ms, self.tree_r_last_wall_time_ms),
            ),
            Operation::CommD => Some((self.comm_d_cpu_time_ms, self.comm_d_wall_time_ms)),
            Operation::EncodeWindowTimeAll => Some(
                (
                    self.encode_window_time_all_cpu_time_ms,
                    self.encode_window_time_all_wall_time_ms,
                ),
            ),
            Operation::WindowCommLeavesTime => Some(
                (
                    self.window_comm_leaves_time_cpu_time_ms,
                    self.window_comm_leaves_time_wall_time_ms,
                ),
            ),
            Operation::PorepCommitTime => Some(
                (self.porep_commit_time_cpu_time_ms, self.porep_commit_time_wall_time_ms),
            ),
            Operation::PostInclusionProofs => Some(
                (self.post_inclusion_proofs_cpu_time_ms, self.post_inclusion_proofs_time_ms),
            ),
            Operation::PostFinalizeTicket => Some(
                (self.post_finalize_ticket_cpu_time_ms, self.post_finalize_ticket_time_ms),
            ),
            Operation::PostReadChallengedRange => Some(
                (
                    self.post_read_challenged_range_cpu_time_ms,
                    self.post_read_challenged_range_time_ms,
                ),
            ),
            Operation::PostPartialTicketHash => Some(
                (self.post_partial_ticket_hash_cpu_time_ms, self.post_partial_ticket_hash_time_ms),
            ),
        }
    }
}

impl Default for FlarpOutputs {
    fn default() -> (outputs: Self)
        ensures
            outputs == FlarpOutputs::zero(),
    {
        FlarpOutputs {
            encoding_cpu_time_ms: 0,
            encoding_wall_time_ms: 0,
            generate_tree_c_cpu_time_ms: 0,
            generate_tree_c_wall_time_ms: 0,
            porep_proof_gen_cpu_time_ms: 0,
            porep_proof_gen_wall_time_ms: 0,
            tree_r_last_cpu_time_ms: 0,
            tree_r_last_wall_time_ms: 0,
            comm_d_cpu_time_ms: 0,
            comm_d_wall_time_ms: 0,
            encode_window_time_all_cpu_time_ms: 0,
            encode_window_time_all_wall_time_ms: 0,
            window_comm_leaves_time_cpu_time_ms: 0,
            window_comm_leaves_time_wall_time_ms: 0,
            porep_commit_time_cpu_time_ms: 0,
            porep_commit_time_wall_time_ms: 0,
            post_inclusion_proofs_cpu_time_ms: 0,
            post_inclusion_proofs_time_ms: 0,
            post_finalize_ticket_cpu_time_ms: 0,
            post_finalize_ticket_time_ms: 0,
            post_read_challenged_range_cpu_time_ms: 0,
            post_read_challenged_range_time_ms: 0,
            post_partial_ticket_hash_cpu_time_ms: 0,
            post_partial_ticket_hash_time_ms: 0,
        }
    }
}

/// Inputs and timings of one benchmark run.
#[derive(Debug)]
pub struct Report {
    pub inputs: FlarpInputs,
    pub outputs: FlarpOutputs,
}

/// An operation whose duration is measured while sealing and proving.
#[derive(Debug, Clone, Copy, PartialEq, Eq, Structural)]
pub enum Operation {
    AddPiece,
    GeneratePieceCommitment,
    GenerateTreeC,
    GenerateTreeRLast,
    CommD,
    EncodeWindowTimeAll,
    WindowCommLeavesTime,
    PorepCommitTime,
    PostInclusionProofs,
    PostFinalizeTicket,
    PostReadChallengedRange,
    PostPartialTicketHash,
}

/// One measured operation, with its processor and wall-clock time in whole
/// milliseconds.
#[derive(Debug, Clone, Copy)]
pub struct OpMeasurement {
    pub op: Operation,
    pub cpu_time_millis: u128,
    pub wall_time_millis: u128,
}

impl OpMeasurement {
    /// Processor time as the report stores it: the low 64 bits of the count.
    pub open spec fn cpu_millis(self) -> u64 {
        (self.cpu_time_millis % 0x1_0000_0000_0000_0000) as u64
    }

    /// Wall-clock time as the report stores it: the low 64 bits of the count.
    pub open spec fn wall_millis(self) -> u64 {
        (self.wall_time_millis % 0x1_0000_0000_0000_0000) as u64
    }
}

/// Keeps the low 64 bits of a millisecond count.
fn low_64(millis: u128) -> (low: u64)
    ensures
        low == (millis % 0x1_0000_0000_0000_0000) as u64,
{
    (millis % 0x1_0000_0000_0000_0000) as u64
}

/// Writes one measurement into the report.
fn record_measurement(outputs: &mut FlarpOutputs, m: &OpMeasurement)
    ensures
        *final(outputs) == old(outputs).record(*m),
{
    let cpu_time = low_64(m.cpu_time_millis);
    let wall_time = low_64(m.wall_time_millis);
    match m.op {
        Operation::AddPiece => {},
        Operation::GeneratePieceCommitment => {},
        Operation::GenerateTreeC => {
            outputs.generate_tree_c_cpu_time_ms = cpu_time;
            outputs.generate_tree_c_wall_time_ms = wall_time;
        },
        Operation::GenerateTreeRLast => {
            outputs.tree_r_last_cpu_time_ms = cpu_time;
            outputs.tree_r_last_wall_time_ms = wall_time;
        },
        Operation::CommD => {
            outputs.comm_d_cpu_time_ms = cpu_time;
            outputs.comm_d_wall_time_ms = wall_time;
        },
        Operation::EncodeWindowTimeAll => {
            outputs.encode_window_time_all_cpu_time_ms = cpu_time;
            outputs.encode_window_time_all_wall_time_ms = wall_time;
        },
        Operation::WindowCommLeavesTime => {
            outputs.window_comm_leaves_time_cpu_time_ms = cpu_time;
            outputs.window_comm_leaves_time_wall_time_ms = wall_time;
        },
        Operation::PorepCommitTime => {
            outputs.porep_commit_time_cpu_time_ms = cpu_time;
            outputs.porep_commit_time_wall_time_ms = wall_time;
        },
        Operation::PostInclusionProofs => {
            outputs.post_inclusion_proofs_cpu_time_ms = cpu_time;
            outputs.post_inclusion_proofs_time_ms = wall_time;
        },
        Operation::PostFinalizeTicket => {
            outputs.post_finalize_ticket_cpu_time_ms = cpu_time;
            outputs.post_finalize_ticket_time_ms = wall_time;
        },
        Operation::PostReadChallengedRange => {
            outputs.post_read_challenged_range_cpu_time_ms = cpu_time;
            outputs.post_read_challenged_range_time_ms = wall_time;
        },
        Operation::PostPartialTicketHash => {
            outputs.post_partial_ticket_hash_cpu_time_ms = cpu_time;
            outputs.post_partial_ticket_hash_time_ms = wall_time;
        },
    }
}

/// Folds the measured operations into the report, in the order in which they
/// were measured: each one overwrites the two timings of its operation, so the
/// last measurement of an operation is the one that stays. The inputs and the
/// timings of operations that were not measured are left as they were.
pub fn augment_with_op_measurements(report: &mut Report, measurements: &Vec<OpMeasurement>)
    ensures
        final(report).inputs == old(report).inputs,
        final(report).outputs == old(report).outputs.record_all(measurements@),
{
    let mut i: usize = 0;
    while i < measurements.len()
        invariant
            i <= measurements.len(),
            report.inputs == old(report).inputs,
            report.outputs == old(report).outputs.record_all(measurements@.take(i as int)),
        decreases measurements.len() - i,
    {
        record_measurement(&mut report.outputs, &measurements[i]);
        proof {
            assert(measurements@.take(i + 1).drop_last() =~= measurements@.take(i as int));
        }
        i += 1;
    }
    proof {
        assert(measurements@.take(i as int) =~= measurements@);
    }
}

/// What sealing a sector took, in whole milliseconds: encoding the replica and
/// generating the proof of replication, each in processor and wall-clock
/// time.
#[derive(Debug, Clone, Copy)]
pub struct SealTimings {
    pub encoding_wall_time_millis: u128,
    pub encoding_cpu_time_millis: u128,
    pub porep_proof_gen_cpu_time_millis: u128,
    pub porep_proof_gen_wall_time_millis: u128,
}

impl SealTimings {
    /// The timings of a run in which only sealing has been recorded: the four
    /// sealing times with their low 64 bits, every other timing zero.
    pub open spec fn outputs(self) -> FlarpOutputs {
        FlarpOutputs {
            encoding_cpu_time_ms: (self.encoding_cpu_time_millis % 0x1_0000_0000_0000_0000) as u64,
            encoding_wall_time_ms: (self.encoding_wall_time_millis % 0x1_0000_0000_0000_0000) as u64,
            porep_proof_gen_cpu_time_ms: (self.porep_proof_gen_cpu_time_millis
                % 0x1_0000_0000_0000_0000) as u64,
            porep_proof_gen_wall_time_ms: (self.porep_proof_gen_wall_time_millis
                % 0x1_0000_0000_0000_0000) as u64,
            ..FlarpOutputs::zero()
        }
    }
}

/// The report of a run: its inputs, the sealing times, and the measured
/// operations folded in on top of them as `augment_with_op_measurements`
/// does.
pub fn build_report(
    inputs: FlarpInputs,
    sealing: &SealTimings,
    measurements: &Vec<OpMeasurement>,
) -> (report: Report)
    ensures
        report.inputs == inputs,
        report.outputs == sealing.outputs().record_all(measurements@),
{
    let mut outputs = FlarpOutputs::default();
    outputs.porep_proof_gen_cpu_time_ms = low_64(sealing.porep_proof_gen_cpu_time_millis);
    outputs.porep_proof_gen_wall_time_ms = low_64(sealing.porep_proof_gen_wall_time_millis);
    outputs.encoding_wall_time_ms = low_64(sealing.encoding_wall_time_millis);
    outputs.encoding_cpu_time_ms = low_64(sealing.encoding_cpu_time_millis);
    let mut report = Report { inputs, outputs };
    augment_with_op_measurements(&mut report, measurements);
    report
}

/// Measured operations never touch the inputs of a report nor its sealing
/// times, and for each operation with timings in the report the last
/// measurement of it, if there is one, is what the report holds.
pub proof fn law_last_measurement_stays(outputs: FlarpOutputs, ms: Seq<OpMeasurement>, op: Operation)
    ensures
        outputs.record_all(ms).encoding_cpu_time_ms == outputs.encoding_cpu_time_ms,
        outputs.record_all(ms).encoding_wall_time_ms == outputs.encoding_wall_time_ms,
        outputs.record_all(ms).porep_proof_gen_cpu_time_ms == outputs.porep_proof_gen_cpu_time_ms,
        outputs.record_all(ms).porep_proof_gen_wall_time_ms
            == outputs.porep_proof_gen_wall_time_ms,
        (forall|i: int| 0 <= i < ms.len() ==> ms[i].op != op) ==> outputs.record_all(ms).times_of(
            op,
        ) == outputs.times_of(op),
        forall|i: int|
            0 <= i < ms.len() && ms[i].op == op && outputs.times_of(op) is Some && (forall|j: int|
                i < j < ms.len() ==> ms[j].op != op) ==> outputs.record_all(ms).times_of(op)
                == Some((ms[i].cpu_millis(), ms[i].wall_millis())),
    decreases ms.len(),
{
    if ms.len() > 0 {
        let init = ms.drop_last();
        law_last_measurement_stays(outputs, init, op);
        assert forall|i: int|
            0 <= i < ms.len() && ms[i].op == op && outputs.times_of(op) is Some && (forall|j: int|
                i < j < ms.len() ==> ms[j].op != op) implies outputs.record_all(ms).times_of(op)
            == Some((ms[i].cpu_millis(), ms[i].wall_millis())) by {
            if i < ms.len() - 1 {
                assert(init[i] == ms[i]);
                assert(forall|j: int| i < j < init.len() ==> init[j] == ms[j]);
            }
        }
        if forall|i: int| 0 <= i < ms.len() ==> ms[i].op != op {
            assert(forall|i: int| 0 <= i < init.len() ==> init[i] == ms[i]);
        }
    }
}

} // verus!
