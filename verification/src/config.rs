//! Settings of the server and of the scheduler.

use vstd::prelude::*;
use vstd::string::{StrSliceExecFns, StringExecFns};
use crate::deberta_engine::DebertaConfig;
use crate::text::{
    chars_of,
    decimal_text,
    find,
    find_in,
    first_field,
    parse_decimal,
    parse_u32,
    render_decimal,
};

verus! {

/// `std::path::PathBuf`, carried through without being inspected.
#[verifier::external_type_specification]
#[verifier::external_body]
pub struct ExPathBuf(std::path::PathBuf);

/// The settings of the server as they are given on the command line or in the
/// environment.
#[derive(Debug, Clone)]
pub struct Config {
    /// Largest number of requests in one batch.
    pub batch_size: usize,
    /// Interval between periodic flushes, in milliseconds.
    pub tick_duration_ms: u64,
    /// Host to bind to.
    pub host: String,
    /// Port to bind to.
    pub port: u16,
    /// Identifier of the model on the model hub.
    pub model_id: Option<String>,
    /// Directory that holds the model locally.
    pub model_path: Option<std::path::PathBuf>,
    /// Revision or branch of the model on the hub.
    pub model_revision: String,
    /// Load PyTorch weights instead of safetensors.
    pub use_pth: bool,
    /// Run on the CPU even when an accelerator is there.
    pub cpu_only: bool,
    /// Longest token sequence given to the model.
    pub max_sequence_length: usize,
    /// Labels by class id, written as `0=No Claim,1=Claim`.
    pub id2label: Option<String>,
}

/// What the scheduler needs to know: how large a batch may be and how often
/// partial batches are flushed.
#[derive(Debug, Clone)]
pub struct BatchConfig {
    /// Largest number of requests handed to the backend in one call.
    pub batch_size: usize,
    /// Interval between periodic flushes, in milliseconds.
    pub tick_duration_ms: u64,
}

impl BatchConfig {
    /// A usable configuration has a positive batch size and a positive tick.
    pub open spec fn valid(&self) -> bool {
        self.batch_size >= 1 && self.tick_duration_ms >= 1
    }

    /// Tells whether the configuration is usable.
    pub fn is_valid(&self) -> (ok: bool)
        ensures
            ok == self.valid(),
    {
        self.batch_size >= 1 && self.tick_duration_ms >= 1
    }
}

impl Default for BatchConfig {
    /// Batches of up to 8 requests, flushed every 100 milliseconds.
    fn default() -> (config: Self)
        ensures
            config.batch_size == 8,
            config.tick_duration_ms == 100,
            config.valid(),
    {
        BatchConfig { batch_size: 8, tick_duration_ms: 100 }
    }
}

impl From<&Config> for BatchConfig {
    fn from(config: &Config) -> (batch: Self) {
        BatchConfig { batch_size: config.batch_size, tick_duration_ms: config.tick_duration_ms }
    }
}

impl vstd::std_specs::convert::FromSpecImpl<&Config> for BatchConfig {
    open spec fn obeys_from_spec() -> bool {
        true
    }

    open spec fn from_spec(config: &Config) -> Self {
        BatchConfig { batch_size: config.batch_size, tick_duration_ms: config.tick_duration_ms }
    }
}

/// What one `id=label` pair contributes: the id that stands before the first
/// `=`, read as a decimal number, and the label that stands between the first
/// `=` and the second or the end. A pair without `=` or without a readable id
/// contributes nothing.
pub open spec fn pair_entry(pair: Seq<char>) -> Option<(u32, Seq<char>)> {
    let eq = find(pair, '=');
    if eq >= pair.len() {
        None
    } else {
        match parse_u32(pair.take(eq)) {
            Some(id) => Some((id, first_field(pair.skip(eq + 1), '='))),
            None => None,
        }
    }
}

/// The labels once one more pair has been read: a later pair replaces an
/// earlier one for the same id.
pub open spec fn with_pair(labels: Map<u32, Seq<char>>, pair: Seq<char>) -> Map<u32, Seq<char>> {
    match pair_entry(pair) {
        Some((id, label)) => labels.insert(id, label),
        None => labels,
    }
}

/// The labels once the comma-separated pairs of `text` have been read, one
/// after the other.
pub open spec fn with_pairs(labels: Map<u32, Seq<char>>, text: Seq<char>) -> Map<u32, Seq<char>>
    decreases text.len(),
{
    let comma = find(text, ',');
    if comma < 0 || comma >= text.len() {
        with_pair(labels, text)
    } else {
        with_pairs(with_pair(labels, text.take(comma)), text.skip(comma + 1))
    }
}

/// The labels that a text of comma-separated `id=label` pairs gives.
pub open spec fn labels_of(text: Seq<char>) -> Map<u32, Seq<char>> {
    with_pairs(Map::empty(), text)
}

/// The labels of a table, as characters.
pub open spec fn label_views(labels: Map<u32, String>) -> Map<u32, Seq<char>> {
    labels.map_values(|label: String| label@)
}

/// Reads a text of comma-separated `id=label` pairs into a table.
pub fn parse_labels(text: &str) -> (labels: std::collections::HashMap<u32, String>)
    ensures
        label_views(labels@) == labels_of(text@),
{
    broadcast use vstd::std_specs::hash::group_hash_axioms;

    let chars = chars_of(text);
    let total: usize = chars.len();
    let mut labels: std::collections::HashMap<u32, String> = std::collections::HashMap::new();
    let mut start: usize = 0;
    let mut done: bool = false;
    assert(label_views(labels@) =~= Map::<u32, Seq<char>>::empty());
    assert(text@.skip(0) =~= text@);
    while !done
        invariant
            chars@ == text@,
            total == chars@.len(),
            start <= total,
            !done ==> with_pairs(label_views(labels@), text@.skip(start as int)) == labels_of(
                text@,
            ),
            done ==> label_views(labels@) == labels_of(text@),
        decreases
                if done {
                    0
                } else {
                    total - start + 1
                },
    {
        let ghost rest = text@.skip(start as int);
        let ghost before = label_views(labels@);
        let end: usize = find_in(&chars, start, total, ',');
        let eq: usize = find_in(&chars, start, end, '=');
        let ghost pair = chars@.subrange(start as int, end as int);
        proof {
            assert(rest.take(end - start) =~= pair);
            assert(pair.take(eq - start) =~= chars@.subrange(start as int, eq as int));
        }
        if eq < end {
            match parse_decimal(&chars, start, eq) {
                Some(id) => {
                    let stop: usize = find_in(&chars, eq + 1, end, '=');
                    let label = String::from_str(text.substring_char(eq + 1, stop));
                    proof {
                        let tail = chars@.subrange(eq + 1, end as int);
                        assert(pair.skip(eq - start + 1) =~= tail);
                        assert(tail.take(stop - (eq + 1)) =~= text@.subrange(eq + 1, stop as int));
                    }
                    labels.insert(id, label);
                    assert(label_views(labels@) =~= before.insert(id, label@));
                },
                None => {},
            }
        }
        if end == total {
            done = true;
        } else {
            proof {
                assert(rest.skip(end - start + 1) =~= text@.skip(end + 1));
            }
            start = end + 1;
        }
    }
    labels
}

impl Config {
    /// Whether the settings say where the model comes from: a model id or a
    /// model directory.
    pub fn names_model(&self) -> (named: bool)
        ensures
            named == (self.model_id is Some || self.model_path is Some),
    {
        self.model_id.is_some() || self.model_path.is_some()
    }

    /// The settings of the backend that these settings ask for, with the
    /// labels read from their text.
    pub fn backend_config(self) -> (backend: DebertaConfig)
        ensures
            backend.model_id == self.model_id,
            backend.model_path == self.model_path,
            backend.revision == self.model_revision,
            backend.use_pth == self.use_pth,
            backend.cpu == self.cpu_only,
            backend.max_sequence_length == self.max_sequence_length,
            backend.id2label is Some == self.id2label is Some,
            backend.id2label matches Some(table) ==> label_views(table@) == labels_of(
                self.id2label->Some_0@,
            ),
    {
        let id2label = self.parse_id2label();
        DebertaConfig {
            model_id: self.model_id,
            model_path: self.model_path,
            revision: self.model_revision,
            use_pth: self.use_pth,
            cpu: self.cpu_only,
            max_sequence_length: self.max_sequence_length,
            id2label,
        }
    }

    /// The labels by class id that the configuration names, if it names any.
    ///
    /// The text is a comma-separated list of `id=label` pairs. A pair whose id
    /// is not a decimal 32-bit number, or which has no `=`, is passed over;
    /// what follows a second `=` in a pair is ignored; of two pairs with the
    /// same id the later one counts.
    pub fn parse_id2label(&self) -> (labels: Option<std::collections::HashMap<u32, String>>)
        ensures
            labels is Some == self.id2label is Some,
            labels matches Some(table) ==> label_views(table@) == labels_of(
                self.id2label->Some_0@,
            ),
    {
        match &self.id2label {
            Some(text) => Some(parse_labels(text.as_str())),
            None => None,
        }
    }

    /// The address to bind to: the host, a colon, and the port in decimal.
    pub fn server_address(&self) -> (address: String)
        ensures
            address@ == self.host@ + ":"@ + decimal_text(self.port as nat),
    {
        let port = render_decimal(self.port as u32);
        self.host.clone().concat(":").concat(port.as_str())
    }
}

} // verus!
