use inference_server::batched_engine::Outcome;
use inference_server::error::EngineError;
use inference_server::fanout::{
    merge_now, merge_responses, split_request, status_code, usage_can_be_summed, InternalFailure,
};
use inference_server::types::{
    ClassificationData, ClassificationRequest, ClassificationResponse, Usage,
};

fn sub_response(label: &str, prob: f64, prompt: u32, completion: u32) -> ClassificationResponse {
    ClassificationResponse {
        id: format!("classify-{}", label),
        object: "list".to_string(),
        created: 1,
        model: "m".to_string(),
        data: vec![ClassificationData {
            index: 0,
            label: label.to_string(),
            probs: vec![prob.to_bits(), (1.0 - prob).to_bits()],
            num_classes: 2,
        }],
        usage: Usage {
            prompt_tokens: prompt,
            total_tokens: prompt + completion,
            completion_tokens: completion,
            prompt_tokens_details: None,
        },
    }
}

#[test]
fn split_request_makes_one_request_per_input() {
    let request = ClassificationRequest {
        model: "deberta".to_string(),
        input: vec!["a".to_string(), "b".to_string(), "c".to_string()],
    };
    let parts = split_request(&request);
    assert_eq!(parts.len(), 3);
    for (part, text) in parts.iter().zip(["a", "b", "c"]) {
        assert_eq!(part.model, "deberta");
        assert_eq!(part.input, vec![text.to_string()]);
    }
    let none = split_request(&ClassificationRequest { model: "m".to_string(), input: vec![] });
    assert!(none.is_empty());
}

#[test]
fn merge_preserves_input_count_and_order() {
    let outcomes: Vec<Outcome> = vec![
        Ok(sub_response("A", 0.9, 2, 0)),
        Ok(sub_response("B", 0.6, 3, 1)),
        Ok(sub_response("C", 0.7, 5, 2)),
    ];
    assert!(usage_can_be_summed(&outcomes));
    let merged =
        merge_responses("deberta".to_string(), outcomes, "classify-xyz".to_string(), 1_700_000_000)
            .expect("all sub-requests succeeded");
    assert_eq!(merged.id, "classify-xyz");
    assert_eq!(merged.object, "list");
    assert_eq!(merged.created, 1_700_000_000);
    assert_eq!(merged.model, "deberta");
    assert_eq!(merged.data.len(), 3);
    for (i, (label, prob)) in [("A", 0.9f64), ("B", 0.6), ("C", 0.7)].iter().enumerate() {
        assert_eq!(merged.data[i].index, i);
        assert_eq!(merged.data[i].label, *label);
        assert_eq!(f64::from_bits(merged.data[i].probs[0]), *prob);
        assert_eq!(merged.data[i].probs.len(), 2);
        assert_eq!(merged.data[i].num_classes, 2);
    }
    assert_eq!(merged.usage.prompt_tokens, 10);
    assert_eq!(merged.usage.completion_tokens, 3);
    assert_eq!(merged.usage.total_tokens, 13);
    assert!(merged.usage.prompt_tokens_details.is_none());
}

#[test]
fn merge_rewrites_every_index_to_the_position_of_its_sub_response() {
    let mut two = sub_response("B1", 0.5, 1, 0);
    two.data.push(ClassificationData {
        index: 1,
        label: "B2".to_string(),
        probs: vec![],
        num_classes: 2,
    });
    let outcomes: Vec<Outcome> = vec![Ok(sub_response("A", 0.5, 1, 0)), Ok(two)];
    let merged = merge_responses("m".to_string(), outcomes, "id".to_string(), 0).unwrap();
    let seen: Vec<(usize, &str)> =
        merged.data.iter().map(|d| (d.index, d.label.as_str())).collect();
    assert_eq!(seen, vec![(0, "A"), (1, "B1"), (1, "B2")]);
}

#[test]
fn merge_of_nothing_is_an_empty_list() {
    let merged = merge_responses("m".to_string(), vec![], "id".to_string(), 7).unwrap();
    assert!(merged.data.is_empty());
    assert_eq!(merged.usage.total_tokens, 0);
    assert_eq!(merged.created, 7);
}

#[test]
fn multi_input_fanout_with_mixed_results() {
    let outcomes: Vec<Outcome> = vec![
        Ok(sub_response("A", 0.9, 1, 0)),
        Err(EngineError::BackendFailure("b failed".to_string())),
        Ok(sub_response("C", 0.9, 1, 0)),
    ];
    assert!(usage_can_be_summed(&outcomes));
    let merged = merge_responses("m".to_string(), outcomes, "id".to_string(), 0);
    assert_eq!(status_code(&merged), 500);
    match merged {
        Err(failure) => assert_eq!(failure, InternalFailure { input_index: 1 }),
        Ok(_) => panic!("no partial response may be exposed"),
    }
}

#[test]
fn the_first_failure_is_the_one_reported() {
    let outcomes: Vec<Outcome> = vec![
        Ok(sub_response("A", 0.9, 1, 0)),
        Err(EngineError::QueueClosed),
        Err(EngineError::SinkDropped),
    ];
    let merged = merge_responses("m".to_string(), outcomes, "id".to_string(), 0);
    assert_eq!(merged.err(), Some(InternalFailure { input_index: 1 }));
    let outcomes: Vec<Outcome> = vec![Err(EngineError::SinkDropped)];
    let merged = merge_responses("m".to_string(), outcomes, "id".to_string(), 0);
    assert_eq!(merged.err(), Some(InternalFailure { input_index: 0 }));
}

#[test]
fn status_is_200_on_success() {
    let merged = merge_responses(
        "m".to_string(),
        vec![Ok(sub_response("A", 0.9, 1, 0))],
        "id".to_string(),
        0,
    );
    assert_eq!(status_code(&merged), 200);
}

#[test]
fn usage_that_does_not_fit_is_recognised() {
    let too_much: Vec<Outcome> =
        vec![Ok(sub_response("A", 0.5, u32::MAX, 0)), Ok(sub_response("B", 0.5, 1, 0))];
    assert!(!usage_can_be_summed(&too_much));
    let total_too_much: Vec<Outcome> =
        vec![Ok(sub_response("A", 0.5, u32::MAX, 0)), Ok(sub_response("B", 0.5, 0, 1))];
    assert!(!usage_can_be_summed(&total_too_much));
    let just_fits: Vec<Outcome> =
        vec![Ok(sub_response("A", 0.5, u32::MAX - 1, 0)), Ok(sub_response("B", 0.5, 0, 1))];
    assert!(usage_can_be_summed(&just_fits));
    let merged = merge_responses("m".to_string(), just_fits, "id".to_string(), 0).unwrap();
    assert_eq!(merged.usage.total_tokens, u32::MAX);
    let failure_first: Vec<Outcome> = vec![
        Err(EngineError::QueueClosed),
        Ok(sub_response("A", 0.5, u32::MAX, 0)),
        Ok(sub_response("B", 0.5, u32::MAX, 0)),
    ];
    assert!(usage_can_be_summed(&failure_first));
}

#[test]
fn merge_now_stamps_a_fresh_id_and_the_time() {
    let first = merge_now("m".to_string(), vec![Ok(sub_response("A", 0.9, 1, 0))]).unwrap();
    let second = merge_now("m".to_string(), vec![Ok(sub_response("A", 0.9, 1, 0))]).unwrap();
    for response in [&first, &second] {
        assert!(response.id.starts_with("classify-"));
        let token = &response.id["classify-".len()..];
        assert_eq!(token.len(), 32);
        assert!(token.chars().all(|c| matches!(c, '0'..='9' | 'a'..='f')));
        assert!(response.created > 1_600_000_000);
        assert_eq!(response.data[0].label, "A");
    }
    assert_ne!(first.id, second.id);
    let failed = merge_now("m".to_string(), vec![Err(EngineError::SinkDropped)]);
    assert_eq!(failed.err(), Some(InternalFailure { input_index: 0 }));
}
