use sigma_rust::chain::{ErgoTreeVersion, Literal, Parameters, SigmaBoolean, SpentBox};
use sigma_rust::cost_oracle::{
    compute_tx_oracle_costs, ergo_box_with_tree, one_input_one_output_tx, parameters_new,
    synthetic_state_context, trivial_sigma_prop_tree, Action, Event, OracleRun,
};
use sigma_rust::expr::Expr;

fn parameters(max_block_cost: i32) -> Parameters {
    parameters_new(1, 1_250_000, 360, 524_288, max_block_cost, 100, 2_000, 100, 100)
}

fn start(input_count: usize, max_block_cost: i32) -> OracleRun {
    match compute_tx_oracle_costs(Ok(input_count), &parameters(max_block_cost)) {
        Ok(run) => run,
        Err(e) => panic!("{e}"),
    }
}

fn give(run: &mut OracleRun, event: Event) {
    assert!(run.handle(event).is_ok());
}

#[test]
fn transaction_without_its_boxes() {
    match compute_tx_oracle_costs(Err("no box".to_string()), &parameters(-1)) {
        Err(e) => assert_eq!(e, "TransactionContext::new: no box"),
        Ok(_) => panic!("no context"),
    }
}

#[test]
fn transaction_without_inputs() {
    let run = start(0, 0);
    assert!(run.action() == Action::Finished);
    assert_eq!(run.into_results().len(), 0);
}

#[test]
fn reduction_uses_the_version_of_the_header_and_ten_times_the_limit() {
    let mut run = start(1, i32::MAX);
    assert!(run.action() == Action::MakeContext { input_index: 0 });
    give(&mut run, Event::ContextMade);
    assert!(run.action() == Action::FindInputBox { input_index: 0 });
    give(&mut run, Event::BoxFound);
    assert!(run.action() == Action::ReadTreeVersion { input_index: 0 });
    give(&mut run, Event::TreeVersion(ErgoTreeVersion { version: 2 }));
    assert!(
        run.action()
            == Action::Reduce {
                input_index: 0,
                tree_version: ErgoTreeVersion { version: 2 },
                jit_cost_limit: 21_474_836_470,
            }
    );
    give(&mut run, Event::Reduced(50));
    assert!(run.action() == Action::Finished);
    let results = run.into_results();
    assert_eq!(results.len(), 1);
    assert_eq!(results[0].cost(), 50);
    assert!(results[0].is_ok());
    assert_eq!(results[0].error_msg(), None);
}

#[test]
fn every_input_gets_a_result() {
    let mut run = start(5, 1000);
    // no context
    give(&mut run, Event::ContextFailed("height".to_string()));
    // no box
    assert!(run.action() == Action::MakeContext { input_index: 1 });
    give(&mut run, Event::ContextMade);
    give(&mut run, Event::BoxMissing);
    // no header
    give(&mut run, Event::ContextMade);
    give(&mut run, Event::BoxFound);
    give(&mut run, Event::HeaderFailed(3, "size".to_string()));
    // no reduction, with what it has cost
    give(&mut run, Event::ContextMade);
    give(&mut run, Event::BoxFound);
    give(&mut run, Event::TreeVersion(ErgoTreeVersion { version: 0 }));
    give(&mut run, Event::ReduceFailed(10_001, "cost limit".to_string()));
    // and one that goes well
    give(&mut run, Event::ContextMade);
    give(&mut run, Event::BoxFound);
    give(&mut run, Event::TreeVersion(ErgoTreeVersion { version: 3 }));
    give(&mut run, Event::Reduced(77));
    assert!(run.action() == Action::Finished);

    let results: Vec<(u64, bool, Option<String>)> = run
        .into_results()
        .iter()
        .map(|r| (r.cost(), r.is_ok(), r.error_msg()))
        .collect();
    assert_eq!(
        results,
        vec![
            (0, false, Some("make_context failed: height".to_string())),
            (
                0,
                false,
                Some("input box not found for input_index=1".to_string())
            ),
            (
                3,
                false,
                Some("ergo_tree.header() failed: size".to_string())
            ),
            (10_001, false, Some("cost limit".to_string())),
            (77, true, None),
        ]
    );
}

#[test]
fn other_events_are_given_back() {
    let mut run = start(1, 1000);
    match run.handle(Event::Reduced(9)) {
        Err(Event::Reduced(9)) => {}
        _ => panic!("event of another action"),
    }
    assert!(run.action() == Action::MakeContext { input_index: 0 });
    give(&mut run, Event::ContextFailed("e".to_string()));
    assert!(run.handle(Event::ContextMade).is_err());
    assert_eq!(run.into_results().len(), 1);
}

#[test]
fn box_index_in_the_message_is_decimal() {
    let mut run = start(121, 0);
    for _ in 0..120 {
        give(&mut run, Event::ContextFailed(String::new()));
    }
    give(&mut run, Event::ContextMade);
    give(&mut run, Event::BoxMissing);
    let results = run.into_results();
    assert_eq!(
        results[120].error_msg(),
        Some("input box not found for input_index=120".to_string())
    );
}

#[test]
fn trivial_trees() {
    for value in [true, false] {
        let tree = trivial_sigma_prop_tree(value);
        assert!(tree.version == ErgoTreeVersion { version: 0 });
        assert!(!tree.constant_segregation);
        match tree.root {
            Expr::Const(k) => {
                assert!(matches!(
                    k.v,
                    Literal::SigmaProp(SigmaBoolean::TrivialProp(v)) if v == value
                ));
            }
            _ => panic!("no constant"),
        }
    }
}

#[test]
fn boxes_and_transactions() {
    let output = ergo_box_with_tree(trivial_sigma_prop_tree(true), 1_000_000);
    assert_eq!(output.candidate.value, 1_000_000);
    assert!(output.candidate.tokens.is_none());
    assert!(output.candidate.additional_registers.is_empty());
    assert_eq!(output.candidate.creation_height, 0);
    assert_eq!(output.transaction_id, [0; 32]);
    assert_eq!(output.index, 0);

    let tx = one_input_one_output_tx(SpentBox {
        box_id: vec![8; 32],
        value: 42,
        ergo_tree: trivial_sigma_prop_tree(false),
    });
    assert_eq!(tx.inputs.len(), 1);
    assert_eq!(tx.inputs[0].box_id, vec![8; 32]);
    assert!(tx.inputs[0].proof.is_empty());
    assert!(tx.inputs[0].extension.is_empty());
    assert!(tx.data_inputs.is_none());
    assert_eq!(tx.output_candidates.len(), 1);
    assert_eq!(tx.output_candidates[0].value, 42);
}

#[test]
fn state_with_given_parameters() {
    let parameters = parameters(1_000_000);
    assert_eq!(parameters.block_version, 1);
    assert_eq!(parameters.storage_fee_factor, 1_250_000);
    assert_eq!(parameters.min_value_per_byte, 360);
    assert_eq!(parameters.max_block_size, 524_288);
    assert_eq!(parameters.max_block_cost, 1_000_000);
    assert_eq!(parameters.token_access_cost, 100);
    assert_eq!(parameters.input_cost, 2_000);
    assert_eq!(parameters.data_input_cost, 100);
    assert_eq!(parameters.output_cost, 100);

    let state = synthetic_state_context(&parameters);
    assert!(state.parameters == parameters);
    assert_eq!(state.pre_header.height, 1);
    assert_eq!(state.headers.len(), 10);
    for header in &state.headers {
        assert_eq!(header.version, 1);
        assert_eq!(header.height, 1);
        assert_eq!(header.id, [0; 32]);
        assert_eq!(header.state_root, [0; 33]);
        assert_eq!(header.votes, [0; 3]);
        assert_eq!(header.autolykos_solution.miner_pk[..3], [0x02, 0x79, 0xbe]);
        assert_eq!(header.autolykos_solution.miner_pk.len(), 33);
        assert!(header.autolykos_solution.pow_distance.is_none());
    }
}
