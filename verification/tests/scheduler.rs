use inference_server::batched_engine::{
    admission, admission_wakeup, reception, split_batch, BatchProcessor, BatchedEngineWrapper,
    Outcome, QueuedRequest, ResponseReceiver, Wakeup,
};
use inference_server::config::BatchConfig;
use inference_server::delivery::{complete_batch, deliver, route_results, DeliveryReport};
use inference_server::error::EngineError;
use inference_server::types::{
    ClassificationData, ClassificationRequest, ClassificationResponse, Usage,
};

fn request(text: &str) -> ClassificationRequest {
    ClassificationRequest { model: "m".to_string(), input: vec![text.to_string()] }
}

fn response_for(request: &ClassificationRequest) -> ClassificationResponse {
    let data = request
        .input
        .iter()
        .enumerate()
        .map(|(index, text)| ClassificationData {
            index,
            label: format!("label:{}", text),
            probs: vec![0.25f64.to_bits(), 0.75f64.to_bits()],
            num_classes: 2,
        })
        .collect();
    ClassificationResponse {
        id: format!("classify-{}", request.input.join("+")),
        object: "list".to_string(),
        created: 1_700_000_000,
        model: request.model.clone(),
        data,
        usage: Usage {
            prompt_tokens: 1,
            total_tokens: 1,
            completion_tokens: 0,
            prompt_tokens_details: None,
        },
    }
}

fn echo_backend(
    requests: &[ClassificationRequest],
) -> Result<Vec<Result<ClassificationResponse, String>>, String> {
    Ok(requests.iter().map(|r| Ok(response_for(r))).collect())
}

fn scheduler(batch_size: usize, tick_duration_ms: u64) -> (BatchedEngineWrapper, BatchProcessor<()>) {
    BatchedEngineWrapper::new(BatchConfig { batch_size, tick_duration_ms }, ())
}

fn enqueue(processor: &mut BatchProcessor<()>, text: &str) -> (Vec<QueuedRequest>, ResponseReceiver) {
    let (record, receiver) = QueuedRequest::open(request(text));
    let step = processor.on_wakeup(Wakeup::Admitted(record));
    assert!(!step.exit);
    (step.batch, receiver)
}

fn texts_of(batch: &[QueuedRequest]) -> Vec<String> {
    batch.iter().map(|q| q.request.input[0].clone()).collect()
}

fn received(receiver: &mut ResponseReceiver) -> Outcome {
    receiver.try_recv().expect("an outcome was delivered")
}

#[test]
fn single_small_request() {
    let (_engine, mut processor) = scheduler(8, 100);
    let (batch, mut receiver) = enqueue(&mut processor, "hello");
    assert!(batch.is_empty());
    assert_eq!(processor.pending(), 1);

    let step = processor.on_wakeup(Wakeup::Tick);
    assert!(!step.exit);
    assert_eq!(step.batch.len(), 1);
    assert_eq!(processor.pending(), 0);

    let (requests, sinks) = split_batch(step.batch);
    assert_eq!(requests.len(), 1);
    assert_eq!(requests[0].model, "m");
    assert_eq!(requests[0].input, vec!["hello".to_string()]);
    let report = complete_batch(sinks, echo_backend(&requests));
    assert_eq!(report, DeliveryReport { sent: 1, receiver_gone: 0 });

    let response = received(&mut receiver).expect("the request succeeded");
    assert_eq!(response.data.len(), 1);
    assert_eq!(response.data[0].index, 0);
    assert_eq!(response.data[0].label, "label:hello");
}

#[test]
fn exact_size_burst() {
    let (_engine, mut processor) = scheduler(4, 100);
    let mut receivers = Vec::new();
    let mut batches = Vec::new();
    for text in ["a", "b", "c", "d"] {
        let (batch, receiver) = enqueue(&mut processor, text);
        receivers.push(receiver);
        batches.push(batch);
    }
    assert!(batches[0].is_empty() && batches[1].is_empty() && batches[2].is_empty());
    let batch = batches.pop().unwrap();
    assert_eq!(texts_of(&batch), vec!["a", "b", "c", "d"]);
    assert_eq!(processor.pending(), 0);

    let (requests, sinks) = split_batch(batch);
    let report = complete_batch(sinks, echo_backend(&requests));
    assert_eq!(report.sent, 4);
    for (receiver, text) in receivers.iter_mut().zip(["a", "b", "c", "d"]) {
        let response = received(receiver).unwrap();
        assert_eq!(response.data[0].label, format!("label:{}", text));
    }
    let idle = processor.on_wakeup(Wakeup::Tick);
    assert!(idle.batch.is_empty());
}

#[test]
fn over_size_burst() {
    let (_engine, mut processor) = scheduler(4, 100);
    let mut sizes = Vec::new();
    let mut order = Vec::new();
    for i in 0..10 {
        let (batch, _receiver) = enqueue(&mut processor, &format!("t{}", i));
        if !batch.is_empty() {
            sizes.push(batch.len());
            order.extend(texts_of(&batch));
        }
    }
    assert_eq!(sizes, vec![4, 4]);
    assert_eq!(processor.pending(), 2);
    let last = processor.on_wakeup(Wakeup::Closed);
    assert!(last.exit);
    assert_eq!(last.batch.len(), 2);
    order.extend(texts_of(&last.batch));
    let expected: Vec<String> = (0..10).map(|i| format!("t{}", i)).collect();
    assert_eq!(order, expected);
    assert_eq!(processor.pending(), 0);
}

#[test]
fn tick_flush_on_partial_batch() {
    let (_engine, mut processor) = scheduler(100, 50);
    for text in ["a", "b", "c"] {
        let (batch, _receiver) = enqueue(&mut processor, text);
        assert!(batch.is_empty());
    }
    let step = processor.on_wakeup(Wakeup::Tick);
    assert_eq!(texts_of(&step.batch), vec!["a", "b", "c"]);
    assert!(!step.exit);
    assert_eq!(processor.pending(), 0);
}

#[test]
fn tick_on_empty_queue_does_nothing() {
    let (_engine, mut processor) = scheduler(4, 100);
    let step = processor.on_wakeup(Wakeup::Tick);
    assert!(step.batch.is_empty());
    assert!(!step.exit);
    assert_eq!(processor.pending(), 0);
}

#[test]
fn batch_size_one_flushes_every_request() {
    let (_engine, mut processor) = scheduler(1, 100);
    for text in ["a", "b", "c"] {
        let (batch, _receiver) = enqueue(&mut processor, text);
        assert_eq!(texts_of(&batch), vec![text]);
        assert_eq!(processor.pending(), 0);
    }
}

#[test]
fn take_batch_takes_the_oldest_and_leaves_the_rest() {
    let (_engine, mut processor) = scheduler(3, 100);
    for text in ["a", "b"] {
        enqueue(&mut processor, text);
    }
    let batch = processor.take_batch();
    assert_eq!(texts_of(&batch), vec!["a", "b"]);
    assert!(processor.take_batch().is_empty());
    assert_eq!(processor.config().batch_size, 3);
    assert_eq!(processor.config().tick_duration_ms, 100);
    assert_eq!(*processor.engine(), ());
}

#[test]
fn per_request_backend_error() {
    let (_engine, mut processor) = scheduler(4, 100);
    let mut receivers = Vec::new();
    let mut batch = Vec::new();
    for text in ["a", "b", "c", "d"] {
        let (flushed, receiver) = enqueue(&mut processor, text);
        receivers.push(receiver);
        batch = flushed;
    }
    let (requests, sinks) = split_batch(batch);
    let results = requests
        .iter()
        .enumerate()
        .map(|(i, r)| if i == 2 { Err("bad input".to_string()) } else { Ok(response_for(r)) })
        .collect();
    let report = complete_batch(sinks, Ok(results));
    assert_eq!(report, DeliveryReport { sent: 4, receiver_gone: 0 });
    for (i, receiver) in receivers.iter_mut().enumerate() {
        match received(receiver) {
            Ok(response) => {
                assert_ne!(i, 2);
                assert_eq!(response.data[0].label, format!("label:{}", ["a", "b", "c", "d"][i]));
            }
            Err(EngineError::BackendFailure(text)) => {
                assert_eq!(i, 2);
                assert_eq!(text, "bad input");
            }
            Err(other) => panic!("unexpected error {:?}", other),
        }
    }
}

#[test]
fn batch_level_failure_reaches_every_sink() {
    let mut receivers = Vec::new();
    let mut sinks = Vec::new();
    for text in ["a", "b", "c"] {
        let (record, receiver) = QueuedRequest::open(request(text));
        receivers.push(receiver);
        sinks.push(record.response_tx);
    }
    let report = complete_batch(sinks, Err("device lost".to_string()));
    assert_eq!(report, DeliveryReport { sent: 3, receiver_gone: 0 });
    for receiver in receivers.iter_mut() {
        match received(receiver) {
            Err(EngineError::BackendFailure(text)) => {
                assert_eq!(text, "Batch processing failed: device lost")
            }
            other => panic!("unexpected outcome {:?}", other),
        }
    }
}

#[test]
fn shutdown_drain() {
    let (engine, mut processor) = scheduler(8, 100);
    let mut receivers = Vec::new();
    for i in 0..5 {
        let (batch, receiver) = enqueue(&mut processor, &format!("t{}", i));
        assert!(batch.is_empty());
        receivers.push(receiver);
    }
    drop(engine);
    let wakeup = admission_wakeup(processor.receiver().recv());
    assert!(matches!(wakeup, Wakeup::Closed));
    let step = processor.on_wakeup(wakeup);
    assert!(step.exit);
    assert_eq!(step.batch.len(), 5);
    assert_eq!(processor.pending(), 0);
    let (requests, sinks) = split_batch(step.batch);
    let report = complete_batch(sinks, echo_backend(&requests));
    assert_eq!(report.sent, 5);
    for (i, receiver) in receivers.iter_mut().enumerate() {
        assert_eq!(received(receiver).unwrap().data[0].label, format!("label:t{}", i));
    }
}

#[test]
fn shutdown_with_nothing_queued_exits_without_a_batch() {
    let (_engine, mut processor) = scheduler(8, 100);
    let step = processor.on_wakeup(Wakeup::Closed);
    assert!(step.exit);
    assert!(step.batch.is_empty());
}

#[test]
fn abandoned_submitter() {
    let (_engine, mut processor) = scheduler(3, 100);
    let (_, mut first) = enqueue(&mut processor, "a");
    let (_, abandoned) = enqueue(&mut processor, "b");
    drop(abandoned);
    let (batch, mut third) = enqueue(&mut processor, "c");
    assert_eq!(batch.len(), 3);
    let (requests, sinks) = split_batch(batch);
    let report = complete_batch(sinks, echo_backend(&requests));
    assert_eq!(report, DeliveryReport { sent: 2, receiver_gone: 1 });
    assert_eq!(received(&mut first).unwrap().data[0].label, "label:a");
    assert_eq!(received(&mut third).unwrap().data[0].label, "label:c");
}

#[test]
fn sinks_beyond_a_short_backend_answer_get_a_failure() {
    let mut receivers = Vec::new();
    let mut sinks = Vec::new();
    let mut requests = Vec::new();
    for text in ["a", "b", "c"] {
        let (record, receiver) = QueuedRequest::open(request(text));
        receivers.push(receiver);
        sinks.push(record.response_tx);
        requests.push(record.request);
    }
    let report = complete_batch(sinks, Ok(vec![Ok(response_for(&requests[0]))]));
    assert_eq!(report, DeliveryReport { sent: 3, receiver_gone: 0 });
    let mut receivers = receivers.into_iter();
    let first = reception(receivers.next().unwrap().blocking_recv());
    assert_eq!(first.unwrap().data[0].label, "label:a");
    for receiver in receivers {
        match reception(receiver.blocking_recv()) {
            Err(EngineError::BackendFailure(text)) => {
                assert_eq!(text, "Backend returned no result for this request")
            }
            other => panic!("unexpected outcome {:?}", other),
        }
    }
}

#[test]
fn an_empty_backend_answer_fails_every_sink() {
    let mut receivers = Vec::new();
    let mut sinks = Vec::new();
    for text in ["a", "b"] {
        let (record, receiver) = QueuedRequest::open(request(text));
        receivers.push(receiver);
        sinks.push(record.response_tx);
    }
    let plan = route_results(sinks, Ok(vec![]));
    assert_eq!(plan.len(), 2);
    for delivery in &plan {
        assert!(matches!(
            &delivery.outcome,
            Err(EngineError::BackendFailure(t)) if t == "Backend returned no result for this request"
        ));
    }
    assert_eq!(deliver(plan), DeliveryReport { sent: 2, receiver_gone: 0 });
    for receiver in receivers.iter_mut() {
        assert!(matches!(received(receiver), Err(EngineError::BackendFailure(_))));
    }
}

#[test]
fn a_response_passes_through_unchanged() {
    let (record, mut receiver) = QueuedRequest::open(request("a"));
    let mut response = response_for(&request("a"));
    response.usage.prompt_tokens_details = Some(serde_json::Value::String("cached".to_string()));
    response.usage.prompt_tokens = 17;
    let report = complete_batch(vec![record.response_tx], Ok(vec![Ok(response)]));
    assert_eq!(report, DeliveryReport { sent: 1, receiver_gone: 0 });
    let delivered = received(&mut receiver).unwrap();
    assert_eq!(
        delivered.usage.prompt_tokens_details,
        Some(serde_json::Value::String("cached".to_string()))
    );
    assert_eq!(delivered.usage.prompt_tokens, 17);
    assert_eq!(delivered.id, "classify-a");
    assert_eq!(delivered.data[0].probs, vec![0.25f64.to_bits(), 0.75f64.to_bits()]);
}

#[test]
fn only_a_step_with_a_batch_calls_the_backend() {
    let (_engine, mut processor) = scheduler(2, 100);
    assert!(!processor.on_wakeup(Wakeup::Tick).calls_backend());
    let (record, _first) = QueuedRequest::open(request("a"));
    assert!(!processor.on_wakeup(Wakeup::Admitted(record)).calls_backend());
    let (record, _second) = QueuedRequest::open(request("b"));
    let step = processor.on_wakeup(Wakeup::Admitted(record));
    assert!(step.calls_backend());
    assert_eq!(step.batch.len(), 2);
    assert!(!processor.on_wakeup(Wakeup::Closed).calls_backend());
}

#[test]
fn surplus_backend_results_are_discarded() {
    let (record, mut receiver) = QueuedRequest::open(request("a"));
    let results = vec![Ok(response_for(&request("a"))), Ok(response_for(&request("b")))];
    let plan = route_results(vec![record.response_tx], Ok(results));
    assert_eq!(plan.len(), 1);
    let report = deliver(plan);
    assert_eq!(report, DeliveryReport { sent: 1, receiver_gone: 0 });
    assert_eq!(received(&mut receiver).unwrap().data[0].label, "label:a");
}

#[test]
fn route_results_pairs_by_position() {
    let mut sinks = Vec::new();
    let mut receivers = Vec::new();
    for text in ["a", "b"] {
        let (record, receiver) = QueuedRequest::open(request(text));
        sinks.push(record.response_tx);
        receivers.push(receiver);
    }
    let results = vec![Ok(response_for(&request("a"))), Err("nope".to_string())];
    let plan = route_results(sinks, Ok(results));
    assert_eq!(plan.len(), 2);
    assert!(matches!(&plan[0].outcome, Ok(r) if r.data[0].label == "label:a"));
    assert!(matches!(&plan[1].outcome, Err(EngineError::BackendFailure(t)) if t == "nope"));
    let mut plan = plan.into_iter();
    assert!(plan.next().unwrap().response_tx.send(Err(EngineError::SinkDropped)).is_ok());
    assert!(matches!(received(&mut receivers[0]), Err(EngineError::SinkDropped)));
    assert!(plan.next().unwrap().response_tx.send(Err(EngineError::QueueClosed)).is_ok());
    assert!(matches!(received(&mut receivers[1]), Err(EngineError::QueueClosed)));
}

#[test]
fn split_batch_keeps_order_of_requests_and_sinks() {
    let mut batch = Vec::new();
    let mut receivers = Vec::new();
    for text in ["x", "y", "z"] {
        let (record, receiver) = QueuedRequest::open(request(text));
        batch.push(record);
        receivers.push(receiver);
    }
    let (requests, sinks) = split_batch(batch);
    let texts: Vec<&str> = requests.iter().map(|r| r.input[0].as_str()).collect();
    assert_eq!(texts, vec!["x", "y", "z"]);
    assert_eq!(sinks.len(), 3);
    for (i, sink) in sinks.into_iter().enumerate() {
        let mut marker = response_for(&request("marker"));
        marker.created = i as i64;
        assert!(sink.send(Ok(marker)).is_ok());
    }
    for (i, receiver) in receivers.iter_mut().enumerate() {
        assert_eq!(received(receiver).unwrap().created, i as i64);
    }
}

#[test]
fn submitting_after_shutdown_reports_a_closed_queue() {
    let (engine, processor) = scheduler(4, 100);
    drop(processor);
    let (record, _receiver) = QueuedRequest::open(request("late"));
    let sent = engine.sender().send(record);
    assert!(sent.is_err());
    assert!(matches!(admission(sent), Err(EngineError::QueueClosed)));
    assert!(matches!(admission(Ok(())), Ok(())));
}

#[test]
fn admission_channel_is_a_rendezvous() {
    let (engine, processor) = scheduler(4, 100);
    let (record, _receiver) = QueuedRequest::open(request("nobody is waiting"));
    assert!(matches!(engine.sender().try_send(record), Err(flume::TrySendError::Full(_))));
    assert!(processor.receiver().is_empty());
    assert_eq!(processor.receiver().capacity(), Some(0));
}

#[test]
fn an_admitted_record_becomes_an_admission_wakeup() {
    let (record, _receiver) = QueuedRequest::open(request("a"));
    match admission_wakeup(Ok(record)) {
        Wakeup::Admitted(q) => assert_eq!(q.request.input, vec!["a".to_string()]),
        _ => panic!("expected an admission"),
    }
    assert!(matches!(admission_wakeup(Err(flume::RecvError::Disconnected)), Wakeup::Closed));
}

#[test]
fn reception_passes_the_delivered_outcome_on() {
    let (record, receiver) = QueuedRequest::open(request("a"));
    assert!(record.response_tx.send(Err(EngineError::BackendFailure("x".to_string()))).is_ok());
    match reception(receiver.blocking_recv()) {
        Err(EngineError::BackendFailure(text)) => assert_eq!(text, "x"),
        other => panic!("unexpected outcome {:?}", other),
    }
    let (record, receiver) = QueuedRequest::open(request("b"));
    drop(record);
    assert!(matches!(reception(receiver.blocking_recv()), Err(EngineError::SinkDropped)));
}

#[test]
fn open_keeps_the_request_and_connects_the_sink() {
    let (record, mut receiver) = QueuedRequest::open(request("kept"));
    assert_eq!(record.request.model, "m");
    assert_eq!(record.request.input, vec!["kept".to_string()]);
    assert!(record.response_tx.send(Ok(response_for(&request("kept")))).is_ok());
    assert_eq!(received(&mut receiver).unwrap().data[0].label, "label:kept");
}

#[test]
fn error_messages() {
    assert_eq!(EngineError::QueueClosed.message(), "Engine queue is closed");
    assert_eq!(EngineError::SinkDropped.message(), "Response channel closed");
    assert_eq!(EngineError::BackendFailure("boom".to_string()).message(), "boom");
}

#[test]
fn batch_config_validity() {
    assert!(BatchConfig { batch_size: 1, tick_duration_ms: 1 }.is_valid());
    assert!(!BatchConfig { batch_size: 0, tick_duration_ms: 100 }.is_valid());
    assert!(!BatchConfig { batch_size: 8, tick_duration_ms: 0 }.is_valid());
    let default = BatchConfig::default();
    assert_eq!((default.batch_size, default.tick_duration_ms), (8, 100));
}
