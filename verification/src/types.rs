//! Request and response values, each with a mathematical view.

use vstd::prelude::*;

verus! {

/// `serde_json::Value`, carried through without being inspected.
#[verifier::external_type_specification]
#[verifier::external_body]
pub struct ExJsonValue(serde_json::Value);

/// One unit of work: a model identifier and the texts to classify.
#[derive(Debug, Clone)]
pub struct ClassificationRequest {
    pub model: String,
    pub input: Vec<String>,
}

/// What a request says, as characters.
pub struct RequestView {
    pub model: Seq<char>,
    pub input: Seq<Seq<char>>,
}

/// The character sequences of a list of strings, in order.
pub open spec fn texts(strings: Seq<String>) -> Seq<Seq<char>> {
    Seq::new(strings.len(), |i: int| strings[i]@)
}

impl View for ClassificationRequest {
    type V = RequestView;

    open spec fn view(&self) -> RequestView {
        RequestView { model: self.model@, input: texts(self.input@) }
    }
}

/// The outcome for one input text.
///
/// `probs` holds each class probability as the bit pattern of an IEEE-754
/// double, so that the values pass through unchanged without any
/// floating-point arithmetic taking place here.
#[derive(Debug)]
pub struct ClassificationData {
    pub index: usize,
    pub label: String,
    pub probs: Vec<u64>,
    pub num_classes: usize,
}

pub struct DataView {
    pub index: nat,
    pub label: Seq<char>,
    pub probs: Seq<u64>,
    pub num_classes: nat,
}

impl View for ClassificationData {
    type V = DataView;

    open spec fn view(&self) -> DataView {
        DataView {
            index: self.index as nat,
            label: self.label@,
            probs: self.probs@,
            num_classes: self.num_classes as nat,
        }
    }
}

/// Token accounting of a response.
#[derive(Debug)]
pub struct Usage {
    pub prompt_tokens: u32,
    pub total_tokens: u32,
    pub completion_tokens: u32,
    pub prompt_tokens_details: Option<serde_json::Value>,
}

pub struct UsageView {
    pub prompt_tokens: nat,
    pub total_tokens: nat,
    pub completion_tokens: nat,
    pub prompt_tokens_details: Option<serde_json::Value>,
}

impl View for Usage {
    type V = UsageView;

    open spec fn view(&self) -> UsageView {
        UsageView {
            prompt_tokens: self.prompt_tokens as nat,
            total_tokens: self.total_tokens as nat,
            completion_tokens: self.completion_tokens as nat,
            prompt_tokens_details: self.prompt_tokens_details,
        }
    }
}

/// The aggregated result for one request.
#[derive(Debug)]
pub struct ClassificationResponse {
    pub id: String,
    pub object: String,
    pub created: i64,
    pub model: String,
    pub data: Vec<ClassificationData>,
    pub usage: Usage,
}

pub struct ResponseView {
    pub id: Seq<char>,
    pub object: Seq<char>,
    pub created: int,
    pub model: Seq<char>,
    pub data: Seq<DataView>,
    pub usage: UsageView,
}

/// The views of a list of per-input outcomes, in order.
pub open spec fn data_views(data: Seq<ClassificationData>) -> Seq<DataView> {
    Seq::new(data.len(), |i: int| data[i]@)
}

impl View for ClassificationResponse {
    type V = ResponseView;

    open spec fn view(&self) -> ResponseView {
        ResponseView {
            id: self.id@,
            object: self.object@,
            created: self.created as int,
            model: self.model@,
            data: data_views(self.data@),
            usage: self.usage@,
        }
    }
}

} // verus!
