use fallback_post::report::{
    augment_with_op_measurements, FlarpInputs, FlarpOutputs, OpMeasurement, Operation, Report,
};

fn fresh_report() -> Report {
    Report {
        inputs: FlarpInputs {
            sector_size_bytes: 2048,
        },
        outputs: FlarpOutputs::default(),
    }
}

#[test]
fn default_outputs_are_zero() {
    let outputs = FlarpOutputs::default();
    assert_eq!(outputs.encoding_cpu_time_ms, 0);
    assert_eq!(outputs.comm_d_wall_time_ms, 0);
    assert_eq!(outputs.post_partial_ticket_hash_time_ms, 0);
    assert_eq!(FlarpInputs::default().sector_size_bytes, 0);
}

#[test]
fn no_measurements_leave_the_report_unchanged() {
    let mut report = fresh_report();
    report.outputs.encoding_cpu_time_ms = 17;
    augment_with_op_measurements(&mut report, &Vec::new());
    assert_eq!(report.inputs.sector_size_bytes, 2048);
    assert_eq!(report.outputs.encoding_cpu_time_ms, 17);
    assert_eq!(report.outputs.comm_d_cpu_time_ms, 0);
}

#[test]
fn each_operation_fills_its_own_fields() {
    let ops = [
        Operation::GenerateTreeC,
        Operation::GenerateTreeRLast,
        Operation::CommD,
        Operation::EncodeWindowTimeAll,
        Operation::WindowCommLeavesTime,
        Operation::PorepCommitTime,
        Operation::PostInclusionProofs,
        Operation::PostFinalizeTicket,
        Operation::PostReadChallengedRange,
        Operation::PostPartialTicketHash,
    ];
    let mut measurements = Vec::new();
    for (i, op) in ops.iter().enumerate() {
        measurements.push(OpMeasurement {
            op: *op,
            cpu_time_millis: 10 * (i as u128 + 1),
            wall_time_millis: 10 * (i as u128 + 1) + 1,
        });
    }
    let mut report = fresh_report();
    augment_with_op_measurements(&mut report, &measurements);
    let o = &report.outputs;
    assert_eq!((o.generate_tree_c_cpu_time_ms, o.generate_tree_c_wall_time_ms), (10, 11));
    assert_eq!((o.tree_r_last_cpu_time_ms, o.tree_r_last_wall_time_ms), (20, 21));
    assert_eq!((o.comm_d_cpu_time_ms, o.comm_d_wall_time_ms), (30, 31));
    assert_eq!(
        (o.encode_window_time_all_cpu_time_ms, o.encode_window_time_all_wall_time_ms),
        (40, 41)
    );
    assert_eq!(
        (o.window_comm_leaves_time_cpu_time_ms, o.window_comm_leaves_time_wall_time_ms),
        (50, 51)
    );
    assert_eq!((o.porep_commit_time_cpu_time_ms, o.porep_commit_time_wall_time_ms), (60, 61));
    assert_eq!((o.post_inclusion_proofs_cpu_time_ms, o.post_inclusion_proofs_time_ms), (70, 71));
    assert_eq!((o.post_finalize_ticket_cpu_time_ms, o.post_finalize_ticket_time_ms), (80, 81));
    assert_eq!(
        (o.post_read_challenged_range_cpu_time_ms, o.post_read_challenged_range_time_ms),
        (90, 91)
    );
    assert_eq!(
        (o.post_partial_ticket_hash_cpu_time_ms, o.post_partial_ticket_hash_time_ms),
        (100, 101)
    );
    assert_eq!(o.encoding_cpu_time_ms, 0);
    assert_eq!(o.encoding_wall_time_ms, 0);
    assert_eq!(o.porep_proof_gen_cpu_time_ms, 0);
    assert_eq!(o.porep_proof_gen_wall_time_ms, 0);
    assert_eq!(report.inputs.sector_size_bytes, 2048);
}

#[test]
fn last_measurement_of_an_operation_wins() {
    let measurements = vec![
        OpMeasurement { op: Operation::CommD, cpu_time_millis: 1, wall_time_millis: 2 },
        OpMeasurement { op: Operation::PorepCommitTime, cpu_time_millis: 3, wall_time_millis: 4 },
        OpMeasurement { op: Operation::CommD, cpu_time_millis: 5, wall_time_millis: 6 },
    ];
    let mut report = fresh_report();
    augment_with_op_measurements(&mut report, &measurements);
    assert_eq!(report.outputs.comm_d_cpu_time_ms, 5);
    assert_eq!(report.outputs.comm_d_wall_time_ms, 6);
    assert_eq!(report.outputs.porep_commit_time_cpu_time_ms, 3);
    assert_eq!(report.outputs.porep_commit_time_wall_time_ms, 4);
}

#[test]
fn operations_without_fields_change_nothing() {
    let measurements = vec![
        OpMeasurement { op: Operation::AddPiece, cpu_time_millis: 9, wall_time_millis: 9 },
        OpMeasurement {
            op: Operation::GeneratePieceCommitment,
            cpu_time_millis: 9,
            wall_time_millis: 9,
        },
    ];
    let mut report = fresh_report();
    augment_with_op_measurements(&mut report, &measurements);
    assert_eq!(report.outputs.generate_tree_c_cpu_time_ms, 0);
    assert_eq!(report.outputs.comm_d_cpu_time_ms, 0);
    assert_eq!(report.outputs.post_partial_ticket_hash_time_ms, 0);
}

#[test]
fn millisecond_counts_keep_their_low_64_bits() {
    let measurements = vec![OpMeasurement {
        op: Operation::CommD,
        cpu_time_millis: (1u128 << 64) + 7,
        wall_time_millis: u64::MAX as u128,
    }];
    let mut report = fresh_report();
    augment_with_op_measurements(&mut report, &measurements);
    assert_eq!(report.outputs.comm_d_cpu_time_ms, 7);
    assert_eq!(report.outputs.comm_d_wall_time_ms, u64::MAX);
}

#[test]
fn report_is_built_from_sealing_times_and_measurements() {
    let sealing = fallback_post::report::SealTimings {
        encoding_wall_time_millis: 11,
        encoding_cpu_time_millis: 12,
        porep_proof_gen_cpu_time_millis: 13,
        porep_proof_gen_wall_time_millis: (1u128 << 64) + 14,
    };
    let measurements = vec![
        OpMeasurement { op: Operation::CommD, cpu_time_millis: 1, wall_time_millis: 2 },
        OpMeasurement { op: Operation::CommD, cpu_time_millis: 3, wall_time_millis: 4 },
    ];
    let report = fallback_post::report::build_report(
        FlarpInputs { sector_size_bytes: 1024 },
        &sealing,
        &measurements,
    );
    assert_eq!(report.inputs.sector_size_bytes, 1024);
    assert_eq!(report.outputs.encoding_wall_time_ms, 11);
    assert_eq!(report.outputs.encoding_cpu_time_ms, 12);
    assert_eq!(report.outputs.porep_proof_gen_cpu_time_ms, 13);
    assert_eq!(report.outputs.porep_proof_gen_wall_time_ms, 14);
    assert_eq!(report.outputs.comm_d_cpu_time_ms, 3);
    assert_eq!(report.outputs.comm_d_wall_time_ms, 4);
    assert_eq!(report.outputs.generate_tree_c_cpu_time_ms, 0);
}
