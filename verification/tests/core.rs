use batch_infer_core::api::{AdmissionOutcome, InferStates};
use batch_infer_core::command::{parse_command, CommandError, CommandKind, CommandSuccess, ComponentKind, ComponentOp};
use batch_infer_core::error::ValidationFault;
use batch_infer_core::generation::{GenLoop, LoopAction, StartError, StepOutcome};
use batch_infer_core::model::{blit_allowed, pass_complete, ModelVariant};
use batch_infer_core::pipeline::{plan_update, ComponentOutcome, PipelineVerdict, SamplePipeline};
use batch_infer_core::pool::BatchPool;
use batch_infer_core::reset::{ResetSetting, ResetValue};
use batch_infer_core::text::check_utf8;
use batch_infer_core::validate::{ids_to_tokens, validate_infer, InferPayload};

fn s(v: &str) -> String {
    v.to_string()
}

fn ids(v: &[&str]) -> Vec<String> {
    v.iter().map(|x| x.to_string()).collect()
}

#[test]
fn command_error_envelope() {
    let e = CommandError::new(s("req-1"), s("boom"));
    assert_eq!(e.echo_id, Some(s("req-1")));
    assert_eq!(e.status, "error");
    assert_eq!(e.error, "boom");
}

#[test]
fn raw_error_has_no_echo_id() {
    let e = CommandError::new_raw(s(
        "Malformed JSON payload. A payload must include echo_id, command and data!",
    ));
    assert!(e.echo_id.is_none());
    assert_eq!(e.status, "error");
    assert!(e.error.contains("Malformed JSON payload"));
}

#[test]
fn success_envelope_carries_result() {
    let v: serde_json::Value = serde_json::from_str("{\"tokens\": 10}").unwrap();
    let ok = CommandSuccess::new(s("req-2"), v.clone());
    assert_eq!(ok.echo_id, "req-2");
    assert_eq!(ok.status, "success");
    assert_eq!(ok.result, v);
}

#[test]
fn command_dispatch() {
    assert_eq!(parse_command(&s("create_state")), Some(CommandKind::CreateState));
    assert_eq!(parse_command(&s("copy_state")), Some(CommandKind::CopyState));
    assert_eq!(parse_command(&s("update_state")), Some(CommandKind::UpdateState));
    assert_eq!(parse_command(&s("delete_state")), Some(CommandKind::DeleteState));
    assert_eq!(parse_command(&s("infer")), Some(CommandKind::Infer));
    assert_eq!(
        parse_command(&s("create_sampler")),
        Some(CommandKind::Component(ComponentOp::Create, ComponentKind::Sampler))
    );
    assert_eq!(
        parse_command(&s("reset_transformer")),
        Some(CommandKind::Component(ComponentOp::Reset, ComponentKind::Transformer))
    );
    assert_eq!(
        parse_command(&s("delete_terminal")),
        Some(CommandKind::Component(ComponentOp::Delete, ComponentKind::Terminal))
    );
    assert_eq!(
        parse_command(&s("copy_normalizer")),
        Some(CommandKind::Component(ComponentOp::Copy, ComponentKind::Normalizer))
    );
    assert_eq!(parse_command(&s("reticulate")), None);
}

#[test]
fn carried_tokens_and_completed_slots() {
    let mut buffers = vec![vec![1, 2, 3], vec![4, 5], Vec::new(), vec![6]];
    let consumed = vec![3, 1, 0, 1];
    let produced = batch_infer_core::model::carry_tokens(&mut buffers, &consumed);
    assert_eq!(produced, vec![true, false, false, true]);
    assert_eq!(buffers, vec![Vec::new(), vec![5], Vec::new(), Vec::new()]);
}

#[test]
fn error_messages_match_wire_texts() {
    assert_eq!(ValidationFault::StateExists.message(), "State already exists!");
    assert_eq!(
        ValidationFault::DestinationExists.message(),
        "Destination state already exists!"
    );
    assert_eq!(ValidationFault::SourceMissing.message(), "Source state id doesn't exist!");
    assert_eq!(ValidationFault::StateMissing.message(), "State ID does not exist!");
    assert_eq!(ValidationFault::EmptyTokens.message(), "Empty token list!");
    assert_eq!(
        ValidationFault::ExhaustedAtStart.message(),
        "Sampler/transformer is exhausted at the start, inference won't continue."
    );
    assert_eq!(ValidationFault::MismatchedState.message(), "Mismatched state type!");
}

#[test]
fn create_twice_fails() {
    let mut m = InferStates::new(4, 2);
    assert!(m.create_state(&s("a")).is_ok());
    assert_eq!(m.create_state(&s("a")), Err(ValidationFault::StateExists));
    assert!(m.has_state(&s("a")));
}

#[test]
fn create_delete_create_is_fresh() {
    let mut m = InferStates::new(4, 2);
    assert!(m.create_state(&s("a")).is_ok());
    assert!(m.write_back(&s("a"), vec![1, 2, 3]).is_ok());
    assert!(m.delete_state(&s("a")).is_ok());
    assert!(!m.has_state(&s("a")));
    assert!(m.create_state(&s("a")).is_ok());
    let h = m.get_state(&s("a")).unwrap();
    assert_eq!(h.id, "a");
    assert!(h.snapshot.is_empty());
    assert!(!h.invalid);
}

#[test]
fn delete_missing_fails() {
    let mut m = InferStates::new(4, 2);
    assert_eq!(m.delete_state(&s("ghost")), Err(ValidationFault::StateMissing));
}

#[test]
fn copy_checks_both_ends() {
    let mut m = InferStates::new(4, 2);
    assert!(m.create_state(&s("a")).is_ok());
    assert_eq!(
        m.copy_state(&s("missing"), &s("b"), false),
        Err(ValidationFault::SourceMissing)
    );
    assert!(m.copy_state(&s("a"), &s("b"), false).is_ok());
    assert_eq!(
        m.copy_state(&s("a"), &s("b"), false),
        Err(ValidationFault::DestinationExists)
    );
}

#[test]
fn copy_then_delete_source_leaves_destination() {
    let mut m = InferStates::new(4, 2);
    assert!(m.create_state(&s("a")).is_ok());
    assert!(m.write_back(&s("a"), vec![7, 8]).is_ok());
    assert!(m.copy_state(&s("a"), &s("b"), false).is_ok());
    assert!(m.delete_state(&s("a")).is_ok());
    let b = m.get_state(&s("b")).unwrap();
    assert_eq!(b.id, "b");
    assert_eq!(b.snapshot, vec![7, 8]);
    assert!(!b.invalid);
    assert!(m.write_back(&s("b"), vec![9]).is_ok());
}

#[test]
fn deep_copy_is_independent() {
    let mut m = InferStates::new(4, 2);
    assert!(m.create_state(&s("a")).is_ok());
    assert!(m.write_back(&s("a"), vec![1]).is_ok());
    assert!(m.copy_state(&s("a"), &s("b"), false).is_ok());
    assert!(m.write_back(&s("a"), vec![2, 2]).is_ok());
    assert_eq!(m.get_state(&s("b")).unwrap().snapshot, vec![1]);
    assert!(m.write_back(&s("b"), vec![3]).is_ok());
    assert_eq!(m.get_state(&s("a")).unwrap().snapshot, vec![2, 2]);
}

#[test]
fn shallow_copy_behaves_like_deep() {
    let mut m = InferStates::new(4, 2);
    assert!(m.create_state(&s("a")).is_ok());
    assert!(m.write_back(&s("a"), vec![5]).is_ok());
    assert!(m.copy_state(&s("a"), &s("b"), true).is_ok());
    assert!(m.write_back(&s("a"), vec![6]).is_ok());
    assert_eq!(m.get_state(&s("b")).unwrap().snapshot, vec![5]);
}

#[test]
fn get_state_is_a_lookup_only() {
    let mut m = InferStates::new(4, 2);
    assert!(m.get_state(&s("never")).is_none());
    assert!(!m.has_state(&s("never")));
    m.create_state(&s("a")).unwrap();
    assert_eq!(m.get_state(&s("a")).unwrap().id, "a");
    m.delete_state(&s("a")).unwrap();
    assert!(m.get_state(&s("a")).is_none());
    assert!(!m.has_state(&s("a")));
}

#[test]
fn ticket_draws_one_permit_per_state() {
    let mut m = InferStates::new(8, 4);
    for name in ["a", "b", "c"] {
        m.create_state(&name.to_string()).unwrap();
    }
    let got = match m.create_ticket(&ids(&["a", "b", "c"]), &vec![true, true, false]) {
        Ok(o) => o,
        Err(_) => panic!("all states exist"),
    };
    match got {
        AdmissionOutcome::Admitted(t) => {
            assert_eq!(t.permits, 3);
            assert_eq!(t.state_ids, ids(&["a", "b", "c"]));
            assert_eq!(t.handles.len(), 3);
            assert_eq!(t.update_prompt, vec![true, true, false]);
            assert_eq!(m.pool.permits_out, 3);
            m.close_ticket(t);
            assert_eq!(m.pool.permits_out, 0);
        }
        AdmissionOutcome::MustWait => panic!("permits were free"),
    }
}

#[test]
fn ticket_checks_the_token_width() {
    let mut m = InferStates::new(4, 2);
    m.create_state(&s("a")).unwrap();
    m.create_state(&s("b")).unwrap();
    let t = match m.create_ticket(&ids(&["a", "b"]), &vec![true, true]) {
        Ok(AdmissionOutcome::Admitted(t)) => t,
        _ => panic!("permits were free"),
    };
    assert!(t.matches_width(&vec![vec![1], vec![2]]));
    assert!(!t.matches_width(&vec![vec![1]]));
    assert!(!t.matches_width(&Vec::new()));
    m.close_ticket(t);
}

#[test]
fn ticket_for_unknown_state_fails_validation() {
    let mut m = InferStates::new(4, 2);
    m.create_state(&s("a")).unwrap();
    match m.create_ticket(&ids(&["a", "zz"]), &vec![true, true]) {
        Err(f) => assert_eq!(f, ValidationFault::UnknownState),
        Ok(_) => panic!("zz does not exist"),
    }
    assert_eq!(m.pool.permits_out, 0);
}

#[test]
fn saturated_semaphore_waits_rather_than_failing() {
    let mut m = InferStates::new(8, 2);
    for name in ["a", "b", "c", "d"] {
        m.create_state(&name.to_string()).unwrap();
    }
    let mut admitted = 0;
    let mut waiting = 0;
    let mut tickets = Vec::new();
    for name in ["a", "b", "c", "d"] {
        match m.create_ticket(&ids(&[name]), &vec![true]) {
            Ok(AdmissionOutcome::Admitted(t)) => {
                admitted += 1;
                tickets.push(t);
            }
            Ok(AdmissionOutcome::MustWait) => waiting += 1,
            Err(_) => panic!("all states exist"),
        }
    }
    assert_eq!(admitted, 2);
    assert_eq!(waiting, 2);
    let t = tickets.pop().unwrap();
    m.close_ticket(t);
    match m.create_ticket(&ids(&["c"]), &vec![true]) {
        Ok(AdmissionOutcome::Admitted(_)) => {}
        _ => panic!("a permit was just released"),
    }
}

#[test]
fn delete_during_flight_spares_the_ticket() {
    let mut m = InferStates::new(4, 2);
    m.create_state(&s("a")).unwrap();
    m.write_back(&s("a"), vec![4, 2]).unwrap();
    let t = match m.create_ticket(&ids(&["a"]), &vec![true]) {
        Ok(AdmissionOutcome::Admitted(t)) => t,
        _ => panic!("permits were free"),
    };
    assert!(m.delete_state(&s("a")).is_ok());
    assert_eq!(t.handles[0].id, "a");
    assert_eq!(t.handles[0].snapshot, vec![4, 2]);
    assert!(!t.handles[0].invalid);
    match m.create_ticket(&ids(&["a"]), &vec![true]) {
        Err(f) => assert_eq!(f, ValidationFault::UnknownState),
        Ok(_) => panic!("the state was deleted"),
    }
    m.close_ticket(t);
}

#[test]
fn pool_slots_fill_up_to_batch_size() {
    let mut p = BatchPool::new(2, 2);
    let sa = p.bind_slot(&s("a")).unwrap();
    let sb = p.bind_slot(&s("b")).unwrap();
    assert_ne!(sa, sb);
    assert_eq!(p.bind_slot(&s("c")), Err(ValidationFault::PoolFull));
}

#[test]
fn pool_keeps_per_slot_fifo_order() {
    let mut p = BatchPool::new(2, 2);
    let slot = p.bind_slot(&s("a")).unwrap();
    p.enqueue(slot, &vec![1, 2]);
    p.enqueue(slot, &vec![3]);
    let batch = p.collect();
    assert_eq!(batch[slot], vec![1, 2, 3]);
    for (i, b) in batch.iter().enumerate() {
        if i != slot {
            assert!(b.is_empty());
        }
    }
    let again = p.collect();
    assert!(again[slot].is_empty());
}

#[test]
fn pool_evicts_closed_drained_slots() {
    let mut p = BatchPool::new(2, 2);
    let slot = p.bind_slot(&s("a")).unwrap();
    p.enqueue(slot, &vec![9]);
    p.mark_closed(slot);
    assert!(p.evict_finished().is_empty());
    let _ = p.collect();
    let freed = p.evict_finished();
    assert_eq!(freed, vec![slot]);
    assert!(p.slot_of(&s("a")).is_none());
    let slot2 = p.bind_slot(&s("a")).unwrap();
    assert_eq!(p.slot_of(&s("a")), Some(slot2));
}

#[test]
fn sync_drains_the_source_queue() {
    let mut p = BatchPool::new(2, 2);
    let slot = p.bind_slot(&s("a")).unwrap();
    p.enqueue(slot, &vec![1, 2]);
    match p.sync_drain(&s("a")) {
        Some((i, queued)) => {
            assert_eq!(i, slot);
            assert_eq!(queued, vec![1, 2]);
        }
        None => panic!("a is bound"),
    }
    assert!(p.sync_drain(&s("zz")).is_none());
    let batch = p.collect();
    assert!(batch[slot].is_empty());
}

#[test]
fn closing_a_ticket_closes_its_slots() {
    let mut m = InferStates::new(2, 2);
    m.create_state(&s("a")).unwrap();
    let t = match m.create_ticket(&ids(&["a"]), &vec![true]) {
        Ok(AdmissionOutcome::Admitted(t)) => t,
        _ => panic!("permits were free"),
    };
    let slot = m.pool.bind_slot(&s("a")).unwrap();
    m.close_ticket(t);
    assert!(m.pool.closed[slot]);
    let freed = m.pool.evict_finished();
    assert_eq!(freed, vec![slot]);
}

#[test]
fn pool_counts_delivered_passes() {
    let mut p = BatchPool::new(2, 2);
    let slot = p.bind_slot(&s("a")).unwrap();
    p.record_outputs(&vec![slot == 0, slot == 1]);
    assert_eq!(p.submitted[slot], 1);
    assert_eq!(p.submitted[1 - slot], 0);
}

#[test]
fn reset_all_bool_spans_every_transformer() {
    let shape = vec![ids(&["t1", "t2"]), ids(&["t3"])];
    let r = ResetSetting::all_bool(&shape, false);
    assert_eq!(r.transformers, vec![false, false, false]);
    assert!(!r.sampler);
    assert!(!r.normalizer);
}

#[test]
fn reset_from_scalar_and_absent() {
    let shape = vec![ids(&["t1"]), ids(&["t2", "t3"])];
    let r = ResetSetting::from_value(&shape, ResetValue::Absent).unwrap();
    assert_eq!(r.transformers, vec![true, true, true]);
    assert!(r.sampler && r.normalizer);
    let r = ResetSetting::from_value(&shape, ResetValue::Scalar(false)).unwrap();
    assert_eq!(r.transformers, vec![false, false, false]);
    assert!(!r.sampler && !r.normalizer);
}

#[test]
fn reset_from_object_flattens_and_defaults() {
    let shape = vec![ids(&["t1"]), ids(&["t2", "t3"])];
    let r = ResetSetting::from_value(
        &shape,
        ResetValue::Shaped {
            transformers: Some(vec![vec![true], vec![false, true]]),
            sampler: Some(false),
            normalizer: None,
        },
    )
    .unwrap();
    assert_eq!(r.transformers, vec![true, false, true]);
    assert!(!r.sampler);
    assert!(r.normalizer);
}

#[test]
fn reset_shape_mismatch_is_rejected() {
    let shape = vec![ids(&["t1"]), ids(&["t2", "t3"])];
    let bad = ResetSetting::from_value(
        &shape,
        ResetValue::Shaped {
            transformers: Some(vec![vec![true, true], vec![false]]),
            sampler: None,
            normalizer: None,
        },
    );
    assert_eq!(bad.unwrap_err(), ValidationFault::ShapeMismatch);
    let short = ResetSetting::from_value(
        &shape,
        ResetValue::Shaped { transformers: Some(vec![vec![true]]), sampler: None, normalizer: None },
    );
    assert_eq!(short.unwrap_err(), ValidationFault::ShapeMismatch);
    let other = ResetSetting::from_value(&shape, ResetValue::Other);
    assert_eq!(other.unwrap_err(), ValidationFault::NotBoolOrObject);
}

#[test]
fn pipeline_rejects_duplicate_transformers() {
    let setting = ResetSetting { transformers: vec![true, true], sampler: true, normalizer: true };
    let r = SamplePipeline::new(
        vec![ids(&["t1"]), ids(&["t1"])],
        s("sp"),
        s("t"),
        None,
        setting,
        &ids(&["t1"]),
        &ids(&["sp"]),
        &ids(&["t"]),
        &ids(&[]),
    );
    assert_eq!(r.unwrap_err(), ValidationFault::DuplicateTransformer);
}

#[test]
fn pipeline_resolves_all_components() {
    let setting = ResetSetting { transformers: vec![true, true], sampler: true, normalizer: true };
    let p = SamplePipeline::new(
        vec![ids(&["t1", "t2"]), ids(&[])],
        s("sp"),
        s("term"),
        Some(s("nz")),
        setting,
        &ids(&["t1", "t2", "t3"]),
        &ids(&["sp"]),
        &ids(&["term"]),
        &ids(&["nz"]),
    )
    .unwrap();
    assert_eq!(p.sampler, "sp");
    assert_eq!(p.terminal, "term");
    assert_eq!(p.normalizer, Some(s("nz")));
}

#[test]
fn pipeline_reports_missing_components_in_order() {
    let setting = ResetSetting { transformers: vec![true], sampler: true, normalizer: true };
    let r = SamplePipeline::new(
        vec![ids(&["tx"])],
        s("sp"),
        s("t"),
        None,
        setting,
        &ids(&["t1"]),
        &ids(&["sp"]),
        &ids(&["t"]),
        &ids(&[]),
    );
    assert_eq!(r.unwrap_err(), ValidationFault::UnknownTransformer);
    let setting = ResetSetting { transformers: vec![true], sampler: true, normalizer: true };
    let r = SamplePipeline::new(
        vec![ids(&["t1"])],
        s("nope"),
        s("t"),
        None,
        setting,
        &ids(&["t1"]),
        &ids(&["sp"]),
        &ids(&["t"]),
        &ids(&[]),
    );
    assert_eq!(r.unwrap_err(), ValidationFault::UnknownSampler);
}

#[test]
fn reset_targets_follow_the_policy() {
    let setting = ResetSetting { transformers: vec![true, false], sampler: true, normalizer: true };
    let p = SamplePipeline::new(
        vec![ids(&["t1", "t2"])],
        s("sp"),
        s("term"),
        None,
        setting,
        &ids(&["t1", "t2"]),
        &ids(&["sp"]),
        &ids(&["term"]),
        &ids(&[]),
    )
    .unwrap();
    let targets = p.reset_targets();
    assert_eq!(targets.transformers, vec![true, false]);
    assert!(targets.sampler);
    assert!(!targets.normalizer);
}

#[test]
fn malformed_payload_reply_has_no_echo_id() {
    let e = batch_infer_core::command::malformed_payload_error();
    assert!(e.echo_id.is_none());
    assert_eq!(e.status, "error");
    assert_eq!(
        e.error,
        "Malformed JSON payload. A payload must include echo_id, command and data!"
    );
}

#[test]
fn update_plan_resets_only_flagged_exhausted_components() {
    let outcomes = vec![
        ComponentOutcome::Done,
        ComponentOutcome::Exhausted,
        ComponentOutcome::Exhausted,
    ];
    let flags = vec![true, true, false];
    let plan = plan_update(&outcomes, &flags);
    assert_eq!(plan.resets, vec![false, true, false]);
    assert!(matches!(plan.verdict, PipelineVerdict::Exhausted));
}

#[test]
fn update_plan_surfaces_first_interruption() {
    let outcomes = vec![
        ComponentOutcome::Done,
        ComponentOutcome::Failed("bad logits".to_string()),
        ComponentOutcome::Exhausted,
    ];
    let plan = plan_update(&outcomes, &vec![false, false, false]);
    match plan.verdict {
        PipelineVerdict::Failed(m) => assert_eq!(m, "bad logits"),
        _ => panic!("the failure comes first"),
    }
    let plan = plan_update(&vec![ComponentOutcome::Done], &vec![true]);
    assert!(matches!(plan.verdict, PipelineVerdict::Proceed));
}

#[test]
fn exhaustion_at_start_fails_hard() {
    let r = GenLoop::start(StepOutcome::Exhausted);
    match r {
        Err(StartError::ExhaustedAtStart) => {
            assert_eq!(
                StartError::ExhaustedAtStart.message(),
                "Sampler/transformer is exhausted at the start, inference won't continue."
            );
        }
        _ => panic!("exhaustion at the first step must fail the generation"),
    }
}

#[test]
fn generation_emits_and_commits() {
    let mut g = match GenLoop::start(StepOutcome::Token(42)) {
        Ok(g) => g,
        Err(_) => panic!("a token opens the loop"),
    };
    assert_eq!(g.last_token, 42);
    assert!(matches!(g.on_outcome(StepOutcome::Token(7)), LoopAction::Proceed));
    assert_eq!(g.last_token, 7);
    assert!(g.commit(&b"hi".to_vec()));
    assert_eq!(g.inferred_tokens, 2);
    assert!(matches!(g.on_outcome(StepOutcome::Token(9)), LoopAction::Proceed));
    assert!(matches!(g.on_outcome(StepOutcome::Exhausted), LoopAction::Finish));
    assert!(g.commit(&b"!".to_vec()));
    let out = g.finish();
    assert_eq!(out.text, b"hi!".to_vec());
    assert_eq!(out.last_token, 9);
    assert_eq!(out.tokens_emitted, 3);
}

#[test]
fn incomplete_utf8_stays_buffered() {
    let mut g = match GenLoop::start(StepOutcome::Token(1)) {
        Ok(g) => g,
        Err(_) => panic!("a token opens the loop"),
    };
    assert!(!g.commit(&vec![0xe4, 0xbd]));
    assert_eq!(g.inferred_tokens, 0);
    assert!(matches!(g.on_outcome(StepOutcome::Token(2)), LoopAction::Proceed));
    assert!(g.commit(&vec![0xe4, 0xbd, 0xa0]));
    assert_eq!(g.inferred_tokens, 2);
    let out = g.finish();
    assert_eq!(String::from_utf8(out.text).unwrap(), "你");
}

#[test]
fn generation_failure_aborts() {
    let mut g = match GenLoop::start(StepOutcome::Token(1)) {
        Ok(g) => g,
        Err(_) => panic!("a token opens the loop"),
    };
    match g.on_outcome(StepOutcome::Failed("kernel fault".to_string())) {
        LoopAction::Fail(m) => assert_eq!(m, "kernel fault"),
        _ => panic!("a hard error must abort"),
    }
}

#[test]
fn ten_token_generation_reports_ten() {
    let mut g = match GenLoop::start(StepOutcome::Token(100)) {
        Ok(g) => g,
        Err(_) => panic!("a token opens the loop"),
    };
    for step in 1..10u16 {
        assert!(g.commit(&vec![b'x']));
        assert!(matches!(g.on_outcome(StepOutcome::Token(100 + step)), LoopAction::Proceed));
    }
    assert!(g.commit(&vec![b'x']));
    let out = g.finish();
    assert_eq!(out.tokens_emitted, 10);
    assert_eq!(out.last_token, 109);
    assert_eq!(out.text.len(), 10);
}

#[test]
fn utf8_checker_accepts_well_formed_text() {
    assert!(check_utf8(&b"plain ascii".to_vec()));
    assert!(check_utf8(&"héllo wörld".as_bytes().to_vec()));
    assert!(check_utf8(&"正解🎉".as_bytes().to_vec()));
    assert!(check_utf8(&Vec::new()));
}

#[test]
fn utf8_checker_rejects_malformed_bytes() {
    assert!(!check_utf8(&vec![0xff]));
    assert!(!check_utf8(&vec![0x80]));
    assert!(!check_utf8(&vec![0xc0, 0x80]));
    assert!(!check_utf8(&vec![0xed, 0xa0, 0x80]));
    assert!(!check_utf8(&vec![0xe4, 0xbd]));
    assert!(!check_utf8(&vec![0xf4, 0x90, 0x80, 0x80]));
}

#[test]
fn model_variants_must_match() {
    assert!(blit_allowed(ModelVariant::V4, ModelVariant::V4).is_ok());
    assert_eq!(
        blit_allowed(ModelVariant::V4, ModelVariant::V5),
        Err(ValidationFault::MismatchedState)
    );
    assert!(pass_complete(&vec![false, true, false]));
    assert!(!pass_complete(&vec![false, false]));
    assert!(!pass_complete(&Vec::new()));
}

#[test]
fn token_ids_narrow_or_fail() {
    assert_eq!(ids_to_tokens(&vec![1, 2, 65535]).unwrap(), vec![1, 2, 65535]);
    assert_eq!(
        ids_to_tokens(&vec![1, 65536]).unwrap_err(),
        ValidationFault::TokenOutOfRange
    );
}

fn payload(states: &[&str], tokens: Vec<Vec<u16>>, transformers: Vec<Vec<String>>) -> InferPayload {
    InferPayload {
        tokens,
        states: ids(states),
        transformers,
        sampler: s("sp"),
        terminal: s("term"),
        normalizer: None,
        update_prompt: true,
        reset_on_exhaustion: ResetValue::Scalar(false),
    }
}

#[test]
fn infer_validation_passes_a_good_request() {
    let mut m = InferStates::new(4, 2);
    m.create_state(&s("a")).unwrap();
    let p = payload(&["a"], vec![vec![1, 2, 3]], vec![ids(&[])]);
    assert!(validate_infer(&p, &m, &ids(&["t1"]), &ids(&["sp"])).is_ok());
}

#[test]
fn infer_validation_rejects_in_order() {
    let mut m = InferStates::new(4, 2);
    m.create_state(&s("a")).unwrap();
    let p = payload(&["a", "b"], vec![vec![1]], vec![ids(&[])]);
    assert_eq!(
        validate_infer(&p, &m, &ids(&[]), &ids(&["sp"])).unwrap_err(),
        ValidationFault::LengthMismatch
    );
    let p = payload(&["a", "b"], vec![vec![1], vec![2]], vec![ids(&[]), ids(&[])]);
    assert_eq!(
        validate_infer(&p, &m, &ids(&[]), &ids(&["sp"])).unwrap_err(),
        ValidationFault::UnknownState
    );
    let p = payload(&["a"], vec![vec![1]], vec![ids(&["missing"])]);
    assert_eq!(
        validate_infer(&p, &m, &ids(&["t1"]), &ids(&["sp"])).unwrap_err(),
        ValidationFault::UnknownTransformer
    );
    let p = payload(&["a"], vec![vec![1]], vec![ids(&[])]);
    assert_eq!(
        validate_infer(&p, &m, &ids(&[]), &ids(&[])).unwrap_err(),
        ValidationFault::UnknownSampler
    );
}

#[test]
fn empty_token_lists_fail_validation() {
    let mut m = InferStates::new(4, 2);
    m.create_state(&s("a")).unwrap();
    let p = payload(&["a"], vec![vec![]], vec![ids(&[])]);
    assert_eq!(
        validate_infer(&p, &m, &ids(&[]), &ids(&["sp"])).unwrap_err(),
        ValidationFault::EmptyTokens
    );
}

#[test]
fn update_then_copy_shares_the_advanced_snapshot() {
    let mut m = InferStates::new(4, 2);
    m.create_state(&s("a")).unwrap();
    m.write_back(&s("a"), vec![1, 2, 3]).unwrap();
    m.copy_state(&s("a"), &s("b"), false).unwrap();
    let a = m.get_state(&s("a")).unwrap();
    let b = m.get_state(&s("b")).unwrap();
    assert_eq!(a.snapshot, b.snapshot);
}
