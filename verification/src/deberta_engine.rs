//! What a sequence-classification backend decides around its model: where the
//! model comes from, which labels apply, how a batch is laid out for one
//! forward pass, and how the model's predictions become responses.

use vstd::prelude::*;
use vstd::string::{StringExecFns, StringSliceAdditionalSpecFns};
use vstd::utf8::encode_utf8;
use crate::config::label_views;
use crate::stamp::{fresh_response_id, is_response_id, now};
use crate::text::{decimal_text, render_decimal};
use crate::types::{
    ClassificationData,
    ClassificationRequest,
    ClassificationResponse,
    DataView,
    RequestView,
    ResponseView,
    Usage,
    UsageView,
    data_views,
    texts,
};

verus! {

/// Settings of the backend.
#[derive(Debug, Clone)]
pub struct DebertaConfig {
    pub model_id: Option<String>,
    pub model_path: Option<std::path::PathBuf>,
    pub revision: String,
    pub use_pth: bool,
    pub cpu: bool,
    pub max_sequence_length: usize,
    pub id2label: Option<std::collections::HashMap<u32, String>>,
}

impl Default for DebertaConfig {
    /// No model named, revision `main`, safetensors weights, an accelerator if
    /// there is one, sequences of up to 512 tokens, labels from the model.
    fn default() -> (config: Self)
        ensures
            config.model_id is None,
            config.model_path is None,
            config.revision@ == "main"@,
            !config.use_pth,
            !config.cpu,
            config.max_sequence_length == 512,
            config.id2label is None,
    {
        DebertaConfig {
            model_id: None,
            model_path: None,
            revision: String::from_str("main"),
            use_pth: false,
            cpu: false,
            max_sequence_length: 512,
            id2label: None,
        }
    }
}

/// Where the forward pass runs.
#[derive(Debug, Clone, Copy, PartialEq, Eq, Structural)]
pub enum DeviceChoice {
    Cpu,
    Metal,
    Cuda,
}

/// Picks the device: the CPU when asked for; else Metal when it is available;
/// else CUDA when it is available; else the CPU.
pub fn choose_device(cpu: bool, metal_available: bool, cuda_available: bool) -> (choice:
    DeviceChoice)
    ensures
        choice == if cpu {
            DeviceChoice::Cpu
        } else if metal_available {
            DeviceChoice::Metal
        } else if cuda_available {
            DeviceChoice::Cuda
        } else {
            DeviceChoice::Cpu
        },
{
    if cpu {
        DeviceChoice::Cpu
    } else if metal_available {
        DeviceChoice::Metal
    } else if cuda_available {
        DeviceChoice::Cuda
    } else {
        DeviceChoice::Cpu
    }
}

/// Why a backend could not be set up.
#[derive(Debug, Clone, Copy, PartialEq, Eq, Structural)]
pub enum LoadError {
    /// Neither a model id nor a model directory was given.
    MissingModel,
    /// Neither the settings nor the model's own configuration name labels.
    MissingLabels,
    /// The model path that was given is not a directory.
    NotADirectory,
}

/// The text that describes a setup failure.
pub open spec fn load_error_text(error: LoadError) -> Seq<char> {
    match error {
        LoadError::MissingModel => "Either model_id or model_path must be specified"@,
        LoadError::MissingLabels =>
            "Id2Label not found in the model configuration nor specified as a parameter"@,
        LoadError::NotADirectory => "Model path is not a directory."@,
    }
}

impl LoadError {
    /// Describes the failure in words.
    pub fn message(&self) -> (text: String)
        ensures
            text@ == load_error_text(*self),
    {
        match self {
            LoadError::MissingModel => String::from_str(
                "Either model_id or model_path must be specified",
            ),
            LoadError::MissingLabels => String::from_str(
                "Id2Label not found in the model configuration nor specified as a parameter",
            ),
            LoadError::NotADirectory => String::from_str("Model path is not a directory."),
        }
    }
}

/// Where the files of a model are taken from.
#[derive(Debug)]
pub enum ModelSource {
    /// A directory on this machine.
    Local { directory: std::path::PathBuf },
    /// A repository on the model hub, at a revision.
    Hub { model_id: String, revision: String },
}

/// Decides where the model comes from: a given directory wins; else the hub
/// repository of the given model id at the given revision; with neither,
/// nothing can be loaded.
pub fn model_source(
    model_path: Option<std::path::PathBuf>,
    model_id: Option<String>,
    revision: String,
) -> (source: Result<ModelSource, LoadError>)
    ensures
        source == match (model_path, model_id) {
            (Some(directory), _) => Ok::<ModelSource, LoadError>(ModelSource::Local { directory }),
            (None, Some(id)) => Ok::<ModelSource, LoadError>(
                ModelSource::Hub { model_id: id, revision },
            ),
            (None, None) => Err::<ModelSource, LoadError>(LoadError::MissingModel),
        },
{
    match model_path {
        Some(directory) => Ok(ModelSource::Local { directory }),
        None => match model_id {
            Some(id) => Ok(ModelSource::Hub { model_id: id, revision }),
            None => Err(LoadError::MissingModel),
        },
    }
}

/// Accepts a local model path only if it is a directory; `is_directory` is
/// what the file system says of the path.
pub fn local_directory(is_directory: bool) -> (checked: Result<(), LoadError>)
    ensures
        checked == if is_directory {
            Ok::<(), LoadError>(())
        } else {
            Err::<(), LoadError>(LoadError::NotADirectory)
        },
{
    if is_directory {
        Ok(())
    } else {
        Err(LoadError::NotADirectory)
    }
}

/// Name of the file that holds the weights.
pub open spec fn weights_file_name(use_pth: bool) -> Seq<char> {
    if use_pth {
        "pytorch_model.bin"@
    } else {
        "model.safetensors"@
    }
}

/// The file that holds the model's configuration.
pub fn config_file() -> (name: &'static str)
    ensures
        name@ == "config.json"@,
{
    "config.json"
}

/// The file that holds the tokenizer.
pub fn tokenizer_file() -> (name: &'static str)
    ensures
        name@ == "tokenizer.json"@,
{
    "tokenizer.json"
}

/// The file that holds the weights: PyTorch weights when asked for, else
/// safetensors.
pub fn weights_file(use_pth: bool) -> (name: &'static str)
    ensures
        name@ == weights_file_name(use_pth),
{
    if use_pth {
        "pytorch_model.bin"
    } else {
        "model.safetensors"
    }
}

/// Decides which labels apply: those of the settings take precedence over
/// those of the model's own configuration; with neither, the backend cannot
/// name its classes.
pub fn select_id2label(
    configured: Option<std::collections::HashMap<u32, String>>,
    from_model: Option<std::collections::HashMap<u32, String>>,
) -> (labels: Result<std::collections::HashMap<u32, String>, LoadError>)
    ensures
        labels == match (configured, from_model) {
            (Some(table), _) => Ok::<std::collections::HashMap<u32, String>, LoadError>(table),
            (None, Some(table)) => Ok::<std::collections::HashMap<u32, String>, LoadError>(table),
            (None, None) => Err::<std::collections::HashMap<u32, String>, LoadError>(
                LoadError::MissingLabels,
            ),
        },
{
    match configured {
        Some(table) => Ok(table),
        None => match from_model {
            Some(table) => Ok(table),
            None => Err(LoadError::MissingLabels),
        },
    }
}

/// The views of a list of requests, in order.
pub open spec fn request_views(requests: Seq<ClassificationRequest>) -> Seq<RequestView> {
    Seq::new(requests.len(), |i: int| requests[i]@)
}

/// Number of input texts of the first `upto` requests.
pub open spec fn input_count(requests: Seq<RequestView>, upto: int) -> nat
    decreases upto,
{
    if upto <= 0 {
        0
    } else {
        input_count(requests, upto - 1) + requests[upto - 1].input.len()
    }
}

/// The input texts of the first `upto` requests, one request after the other.
pub open spec fn flattened(requests: Seq<RequestView>, upto: int) -> Seq<Seq<char>>
    decreases upto,
{
    if upto <= 0 {
        Seq::empty()
    } else {
        flattened(requests, upto - 1) + requests[upto - 1].input
    }
}

/// The texts of a batch laid out for one forward pass, and for each request
/// the range of positions that its texts occupy.
pub struct FlatBatch {
    pub texts: Vec<String>,
    pub boundaries: Vec<(usize, usize)>,
}

/// Lays the input texts of all requests out in one list, in request order,
/// and notes for each request where its texts begin and end.
pub fn flatten_inputs(requests: &Vec<ClassificationRequest>) -> (flat: FlatBatch)
    ensures
        texts(flat.texts@) == flattened(request_views(requests@), requests@.len() as int),
        flat.boundaries@.len() == requests@.len(),
        forall|i: int|
            0 <= i < requests@.len() ==> {
                &&& (#[trigger] flat.boundaries@[i]).0 == input_count(request_views(requests@), i)
                &&& flat.boundaries@[i].1 == input_count(request_views(requests@), i + 1)
            },
{
    let ghost views = request_views(requests@);
    let mut all_texts: Vec<String> = Vec::new();
    let mut boundaries: Vec<(usize, usize)> = Vec::new();
    let mut position: usize = 0;
    while position < requests.len()
        invariant
            views == request_views(requests@),
            position <= requests@.len(),
            texts(all_texts@) == flattened(views, position as int),
            all_texts@.len() == input_count(views, position as int),
            boundaries@.len() == position,
            forall|i: int|
                0 <= i < position ==> {
                    &&& (#[trigger] boundaries@[i]).0 == input_count(views, i)
                    &&& boundaries@[i].1 == input_count(views, i + 1)
                },
        decreases requests@.len() - position,
    {
        let request = &requests[position];
        let start: usize = all_texts.len();
        let ghost before = texts(all_texts@);
        let mut taken: usize = 0;
        while taken < request.input.len()
            invariant
                taken <= request.input@.len(),
                before.len() == start,
                all_texts@.len() == start + taken,
                texts(all_texts@) == before + request@.input.take(taken as int),
            decreases request.input@.len() - taken,
        {
            let ghost earlier = all_texts@;
            all_texts.push(request.input[taken].clone());
            taken = taken + 1;
            assert(texts(all_texts@) =~= before + request@.input.take(taken as int)) by {
                let grown = before + request@.input.take(taken as int);
                assert forall|i: int| 0 <= i < grown.len() implies texts(all_texts@)[i]
                    == grown[i] by {
                    if i < earlier.len() {
                        assert(texts(earlier)[i] == (before + request@.input.take(taken - 1))[i]);
                    }
                }
            }
        }
        boundaries.push((start, all_texts.len()));
        position = position + 1;
    }
    FlatBatch { texts: all_texts, boundaries }
}

/// In the flat layout the texts of each request stand together, in their
/// order, from the request's lower boundary on.
pub proof fn law_flattened_position(requests: Seq<RequestView>, upto: int, request: int, text: int)
    requires
        0 <= request < upto <= requests.len(),
        0 <= text < requests[request].input.len(),
    ensures
        flattened(requests, upto).len() == input_count(requests, upto),
        input_count(requests, request) + text < input_count(requests, upto),
        flattened(requests, upto)[input_count(requests, request) + text]
            == requests[request].input[text],
    decreases upto,
{
    lemma_flattened_len(requests, upto);
    lemma_flattened_len(requests, upto - 1);
    if request < upto - 1 {
        law_flattened_position(requests, upto - 1, request, text);
    }
}

/// The flat layout holds as many texts as the requests do together.
proof fn lemma_flattened_len(requests: Seq<RequestView>, upto: int)
    ensures
        flattened(requests, upto).len() == input_count(requests, upto),
    decreases upto,
{
    if upto > 0 {
        lemma_flattened_len(requests, upto - 1);
    }
}

/// Estimated number of tokens of one text: a quarter of its length in UTF-8
/// bytes, rounded up.
pub open spec fn text_tokens(text: Seq<char>) -> nat {
    ((encode_utf8(text).len() + 3) / 4) as nat
}

/// Estimated number of tokens of a list of texts.
pub open spec fn token_estimate(input: Seq<Seq<char>>) -> nat
    decreases input.len(),
{
    if input.len() == 0 {
        0
    } else {
        token_estimate(input.drop_last()) + text_tokens(input.last())
    }
}

/// The estimate never shrinks when texts are added.
proof fn lemma_token_estimate_grows(input: Seq<Seq<char>>, shorter: int)
    requires
        0 <= shorter <= input.len(),
    ensures
        token_estimate(input.take(shorter)) <= token_estimate(input),
    decreases input.len(),
{
    if shorter == input.len() {
        assert(input.take(shorter) =~= input);
    } else {
        assert(input.drop_last().take(shorter) =~= input.take(shorter));
        lemma_token_estimate_grows(input.drop_last(), shorter);
    }
}

/// Estimates the tokens of the texts of a request; `None` when the estimate
/// does not fit in 32 bits.
pub fn estimate_tokens(input: &Vec<String>) -> (estimate: Option<u32>)
    ensures
        estimate == if token_estimate(texts(input@)) <= u32::MAX {
            Some(token_estimate(texts(input@)) as u32)
        } else {
            None
        },
{
    let ghost all = texts(input@);
    let mut total: u64 = 0;
    let mut position: usize = 0;
    while position < input.len()
        invariant
            all == texts(input@),
            position <= input@.len(),
            total == token_estimate(all.take(position as int)),
            total <= u32::MAX,
        decreases input@.len() - position,
    {
        let text: &str = input[position].as_str();
        let bytes: usize = text.as_bytes().len();
        let tokens: usize = bytes / 4 + if bytes % 4 == 0 {
            0
        } else {
            1
        };
        proof {
            let seen = all.take(position + 1);
            assert(seen.drop_last() =~= all.take(position as int));
        }
        if tokens > u32::MAX as usize || total + tokens as u64 > u32::MAX as u64 {
            proof {
                lemma_token_estimate_grows(all, position + 1);
            }
            return None;
        }
        total = total + tokens as u64;
        position = position + 1;
    }
    assert(all.take(position as int) =~= all);
    Some(total as u32)
}

/// The label of a predicted class: the one that the table gives, or `LABEL_`
/// and the class id where the table has none.
pub open spec fn label_for(labels: Map<u32, Seq<char>>, prediction: u32) -> Seq<char> {
    if labels.contains_key(prediction) {
        labels[prediction]
    } else {
        "LABEL_"@ + decimal_text(prediction as nat)
    }
}

/// Names a predicted class.
pub fn label_of(id2label: &std::collections::HashMap<u32, String>, prediction: u32) -> (label:
    String)
    ensures
        label@ == label_for(label_views(id2label@), prediction),
{
    broadcast use vstd::std_specs::hash::group_hash_axioms;

    match id2label.get(&prediction) {
        Some(label) => label.clone(),
        None => String::from_str("LABEL_").concat(render_decimal(prediction).as_str()),
    }
}

/// The probabilities of a list of score rows, in order.
pub open spec fn score_views(scores: Seq<Vec<u64>>) -> Seq<Seq<u64>> {
    Seq::new(scores.len(), |i: int| scores[i]@)
}

/// The results for the texts of one request, whose predictions and scores
/// begin at `start`: the result at `j` has index `j`, the label of the
/// prediction at `start + j`, the scores at `start + j`, and the size of the
/// label table as its number of classes.
pub open spec fn expected_data(
    input_len: nat,
    start: int,
    predictions: Seq<u32>,
    scores: Seq<Seq<u64>>,
    labels: Map<u32, Seq<char>>,
    classes: nat,
) -> Seq<DataView> {
    Seq::new(
        input_len,
        |j: int|
            DataView {
                index: j as nat,
                label: label_for(labels, predictions[start + j]),
                probs: scores[start + j],
                num_classes: classes,
            },
    )
}

/// The response for one request of a batch.
pub open spec fn expected_response(
    request: RequestView,
    start: int,
    predictions: Seq<u32>,
    scores: Seq<Seq<u64>>,
    labels: Map<u32, Seq<char>>,
    classes: nat,
    id: Seq<char>,
    created: int,
) -> ResponseView {
    ResponseView {
        id,
        object: "list"@,
        created,
        model: request.model,
        data: expected_data(request.input.len(), start, predictions, scores, labels, classes),
        usage: UsageView {
            prompt_tokens: token_estimate(request.input),
            total_tokens: token_estimate(request.input),
            completion_tokens: 0,
            prompt_tokens_details: None,
        },
    }
}

/// A response holds one result per input text of its request, and the result
/// at position `j` has index `j`; its usage reports the token estimate as
/// prompt tokens and as total.
pub proof fn law_response_matches_inputs(
    request: RequestView,
    start: int,
    predictions: Seq<u32>,
    scores: Seq<Seq<u64>>,
    labels: Map<u32, Seq<char>>,
    classes: nat,
    id: Seq<char>,
    created: int,
)
    ensures
        expected_response(
            request,
            start,
            predictions,
            scores,
            labels,
            classes,
            id,
            created,
        ).data.len() == request.input.len(),
        forall|j: int|
            0 <= j < request.input.len() ==> (#[trigger] expected_response(
                request,
                start,
                predictions,
                scores,
                labels,
                classes,
                id,
                created,
            ).data[j]).index == j,
        expected_response(
            request,
            start,
            predictions,
            scores,
            labels,
            classes,
            id,
            created,
        ).usage.total_tokens == expected_response(
            request,
            start,
            predictions,
            scores,
            labels,
            classes,
            id,
            created,
        ).usage.prompt_tokens + expected_response(
            request,
            start,
            predictions,
            scores,
            labels,
            classes,
            id,
            created,
        ).usage.completion_tokens,
{
}

/// The message of the per-request failure of a request whose token estimate
/// cannot be reported.
pub open spec fn usage_overflow_text() -> Seq<char> {
    "Token usage does not fit in 32 bits"@
}

/// A copy of a row of scores.
fn copy_row(row: &Vec<u64>) -> (copy: Vec<u64>)
    ensures
        copy@ == row@,
{
    let mut copy: Vec<u64> = Vec::new();
    let mut position: usize = 0;
    while position < row.len()
        invariant
            position <= row@.len(),
            copy@ == row@.take(position as int),
        decreases row@.len() - position,
    {
        copy.push(row[position]);
        position = position + 1;
    }
    copy
}

/// Builds the response for one request of a batch from the model's
/// predictions and scores, which for this request begin at `start`.
///
/// The request fails on its own, without touching the rest of the batch, when
/// its token estimate does not fit in 32 bits.
pub fn assemble_response(
    request: &ClassificationRequest,
    start: usize,
    predictions: &Vec<u32>,
    scores: &Vec<Vec<u64>>,
    id2label: &std::collections::HashMap<u32, String>,
    id: String,
    created: i64,
) -> (result: Result<ClassificationResponse, String>)
    requires
        start + request@.input.len() <= predictions@.len(),
        start + request@.input.len() <= scores@.len(),
    ensures
        match result {
            Ok(response) => {
                &&& token_estimate(request@.input) <= u32::MAX
                &&& response@ == expected_response(
                    request@,
                    start as int,
                    predictions@,
                    score_views(scores@),
                    label_views(id2label@),
                    id2label@.len(),
                    id@,
                    created as int,
                )
            },
            Err(text) => {
                &&& token_estimate(request@.input) > u32::MAX
                &&& text@ == usage_overflow_text()
            },
        },
{
    let tokens: u32 = match estimate_tokens(&request.input) {
        Some(tokens) => tokens,
        None => {
            return Err(String::from_str("Token usage does not fit in 32 bits"));
        },
    };
    let classes: usize = id2label.len();
    let ghost wanted = expected_data(
        request@.input.len(),
        start as int,
        predictions@,
        score_views(scores@),
        label_views(id2label@),
        id2label@.len(),
    );
    let mut data: Vec<ClassificationData> = Vec::new();
    let mut index: usize = 0;
    assert(predictions@.len() == predictions.len());
    while index < request.input.len()
        invariant
            index <= request.input@.len(),
            predictions@.len() <= usize::MAX,
            request@.input.len() == request.input@.len(),
            start + request.input@.len() <= predictions@.len(),
            start + request.input@.len() <= scores@.len(),
            classes == id2label@.len(),
            wanted == expected_data(
                request@.input.len(),
                start as int,
                predictions@,
                score_views(scores@),
                label_views(id2label@),
                id2label@.len(),
            ),
            data@.len() == index,
            forall|j: int| 0 <= j < index ==> (#[trigger] data@[j])@ == wanted[j],
        decreases request.input@.len() - index,
    {
        let label = label_of(id2label, predictions[start + index]);
        let probs = copy_row(&scores[start + index]);
        data.push(ClassificationData { index, label, probs, num_classes: classes });
        index = index + 1;
    }
    assert(data_views(data@) =~= wanted);
    Ok(
        ClassificationResponse {
            id,
            object: String::from_str("list"),
            created,
            model: request.model.clone(),
            data,
            usage: Usage {
                prompt_tokens: tokens,
                total_tokens: tokens,
                completion_tokens: 0,
                prompt_tokens_details: None,
            },
        },
    )
}

/// Whether `result` is what the request at `position` of a batch is owed,
/// leaving open the response's id and creation time, which are drawn afresh.
pub open spec fn assembled(
    requests: Seq<RequestView>,
    position: int,
    predictions: Seq<u32>,
    scores: Seq<Seq<u64>>,
    labels: Map<u32, Seq<char>>,
    classes: nat,
    result: Result<ClassificationResponse, String>,
) -> bool {
    match result {
        Ok(response) => {
            &&& token_estimate(requests[position].input) <= u32::MAX
            &&& response@ == expected_response(
                requests[position],
                input_count(requests, position) as int,
                predictions,
                scores,
                labels,
                classes,
                response@.id,
                response@.created,
            )
            &&& is_response_id(response@.id)
            &&& response@.created >= 0
        },
        Err(text) => {
            &&& token_estimate(requests[position].input) > u32::MAX
            &&& text@ == usage_overflow_text()
        },
    }
}

/// Turns the model's output for a flat batch back into one result per
/// request, in request order. `predictions` and `scores` hold one entry per
/// text of the flat layout; each response gets a fresh id and the time at
/// which it is built.
pub fn assemble_responses(
    requests: &Vec<ClassificationRequest>,
    predictions: &Vec<u32>,
    scores: &Vec<Vec<u64>>,
    id2label: &std::collections::HashMap<u32, String>,
) -> (responses: Vec<Result<ClassificationResponse, String>>)
    requires
        input_count(request_views(requests@), requests@.len() as int) <= predictions@.len(),
        input_count(request_views(requests@), requests@.len() as int) <= scores@.len(),
    ensures
        responses@.len() == requests@.len(),
        forall|i: int|
            0 <= i < requests@.len() ==> assembled(
                request_views(requests@),
                i,
                predictions@,
                score_views(scores@),
                label_views(id2label@),
                id2label@.len(),
                #[trigger] responses@[i],
            ),
{
    let ghost views = request_views(requests@);
    let mut responses: Vec<Result<ClassificationResponse, String>> = Vec::new();
    let mut start: usize = 0;
    let mut position: usize = 0;
    assert(predictions@.len() == predictions.len());
    while position < requests.len()
        invariant
            views == request_views(requests@),
            position <= requests@.len(),
            predictions@.len() <= usize::MAX,
            start == input_count(views, position as int),
            input_count(views, requests@.len() as int) <= predictions@.len(),
            input_count(views, requests@.len() as int) <= scores@.len(),
            responses@.len() == position,
            forall|i: int|
                0 <= i < position ==> assembled(
                    views,
                    i,
                    predictions@,
                    score_views(scores@),
                    label_views(id2label@),
                    id2label@.len(),
                    #[trigger] responses@[i],
                ),
        decreases requests@.len() - position,
    {
        let request = &requests[position];
        proof {
            lemma_input_count_grows(views, position + 1, requests@.len() as int);
        }
        let id = fresh_response_id();
        let created = now();
        let result = assemble_response(
            request,
            start,
            predictions,
            scores,
            id2label,
            id,
            created,
        );
        responses.push(result);
        start = start + request.input.len();
        position = position + 1;
    }
    responses
}

/// The number of texts never shrinks when requests are added.
proof fn lemma_input_count_grows(requests: Seq<RequestView>, fewer: int, upto: int)
    requires
        fewer <= upto,
    ensures
        input_count(requests, fewer) <= input_count(requests, upto),
    decreases upto - fewer,
{
    if fewer < upto {
        lemma_input_count_grows(requests, fewer, upto - 1);
    }
}

} // verus!
