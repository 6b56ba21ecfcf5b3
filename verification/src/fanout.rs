//! The fanout edge: one sub-request per input text, and the merge of the
//! sub-responses into a single response in input order.

use vstd::prelude::*;
use vstd::string::StringExecFns;
use crate::batched_engine::Outcome;
use crate::stamp::{fresh_response_id, is_response_id, now};
use crate::types::{
    ClassificationData,
    ClassificationRequest,
    ClassificationResponse,
    DataView,
    RequestView,
    ResponseView,
    Usage,
    UsageView,
    data_views,
};

verus! {

/// The sub-request for the input at `position`: the same model, that one text.
pub open spec fn sub_request(request: RequestView, position: int) -> RequestView {
    RequestView { model: request.model, input: seq![request.input[position]] }
}

/// Splits a request into one single-input request per input text, in input
/// order, each for the same model.
pub fn split_request(request: &ClassificationRequest) -> (parts: Vec<ClassificationRequest>)
    ensures
        parts@.len() == request@.input.len(),
        forall|i: int| 0 <= i < parts@.len() ==> (#[trigger] parts@[i])@ == sub_request(request@, i),
{
    let mut parts: Vec<ClassificationRequest> = Vec::new();
    let mut position: usize = 0;
    while position < request.input.len()
        invariant
            position <= request.input@.len(),
            parts@.len() == position,
            forall|i: int| 0 <= i < position ==> (#[trigger] parts@[i])@ == sub_request(request@, i),
        decreases request.input@.len() - position,
    {
        let mut input: Vec<String> = Vec::new();
        input.push(request.input[position].clone());
        let part = ClassificationRequest { model: request.model.clone(), input };
        assert(part@.input =~= seq![request@.input[position as int]]);
        parts.push(part);
        position = position + 1;
    }
    parts
}

/// The results with every index replaced by `position`.
pub open spec fn renumbered(data: Seq<DataView>, position: nat) -> Seq<DataView> {
    Seq::new(data.len(), |j: int| DataView { index: position, ..data[j] })
}

/// The results of all sub-responses, concatenated in order, each carrying the
/// position of its sub-response as its index.
pub open spec fn merged_data(subs: Seq<ResponseView>) -> Seq<DataView>
    decreases subs.len(),
{
    if subs.len() == 0 {
        Seq::empty()
    } else {
        merged_data(subs.drop_last()) + renumbered(subs.last().data, (subs.len() - 1) as nat)
    }
}

/// Sum of the prompt tokens of the sub-responses.
pub open spec fn prompt_total(subs: Seq<ResponseView>) -> nat
    decreases subs.len(),
{
    if subs.len() == 0 {
        0
    } else {
        prompt_total(subs.drop_last()) + subs.last().usage.prompt_tokens
    }
}

/// Sum of the completion tokens of the sub-responses.
pub open spec fn completion_total(subs: Seq<ResponseView>) -> nat
    decreases subs.len(),
{
    if subs.len() == 0 {
        0
    } else {
        completion_total(subs.drop_last()) + subs.last().usage.completion_tokens
    }
}

/// The merged response: the given id and creation time, the tag `list`, the
/// client's model, all results in input order, and the summed usage.
pub open spec fn merged(
    model: Seq<char>,
    subs: Seq<ResponseView>,
    id: Seq<char>,
    created: int,
) -> ResponseView {
    ResponseView {
        id,
        object: "list"@,
        created,
        model,
        data: merged_data(subs),
        usage: UsageView {
            prompt_tokens: prompt_total(subs),
            total_tokens: prompt_total(subs) + completion_total(subs),
            completion_tokens: completion_total(subs),
            prompt_tokens_details: None,
        },
    }
}

/// The response that an outcome carries; meaningful for successes only.
pub open spec fn response_of(outcome: Outcome) -> ResponseView {
    match outcome {
        Ok(response) => response@,
        Err(_) => arbitrary(),
    }
}

/// The responses of the first `count` outcomes.
pub open spec fn responses_before(outcomes: Seq<Outcome>, count: int) -> Seq<ResponseView> {
    Seq::new(count as nat, |i: int| response_of(outcomes[i]))
}

/// Whether the first `count` outcomes are all successes.
pub open spec fn ok_before(outcomes: Seq<Outcome>, count: int) -> bool {
    forall|j: int| 0 <= j < count ==> (#[trigger] outcomes[j]) is Ok
}

/// Whether `position` is where the first failure among the outcomes stands.
pub open spec fn first_failure_at(outcomes: Seq<Outcome>, position: int) -> bool {
    &&& 0 <= position < outcomes.len()
    &&& outcomes[position] is Err
    &&& ok_before(outcomes, position)
}

/// Whether the token counts of the first `count` outcomes can be summed in 32
/// bits.
pub open spec fn sums_fit(outcomes: Seq<Outcome>, count: int) -> bool {
    &&& prompt_total(responses_before(outcomes, count)) <= u32::MAX
    &&& completion_total(responses_before(outcomes, count)) <= u32::MAX
}

/// Whether the usage of the outcomes can be aggregated in 32 bits: the sums of
/// the successes that precede the first failure fit, and when there is no
/// failure the grand total fits as well.
pub open spec fn usage_fits(outcomes: Seq<Outcome>) -> bool {
    &&& forall|count: int|
        0 <= count <= outcomes.len() && ok_before(outcomes, count) ==> #[trigger] sums_fit(
            outcomes,
            count,
        )
    &&& ok_before(outcomes, outcomes.len() as int) ==> prompt_total(
        responses_before(outcomes, outcomes.len() as int),
    ) + completion_total(responses_before(outcomes, outcomes.len() as int)) <= u32::MAX
}

/// Whether every sub-response carries exactly one result, as the response to
/// a single-input request does.
pub open spec fn single_results(subs: Seq<ResponseView>) -> bool {
    forall|i: int| 0 <= i < subs.len() ==> (#[trigger] subs[i]).data.len() == 1
}

/// Whether `data` holds one result for each of the sub-responses, in their
/// order: the result of the sub-response at `i` stands at `i` and has `i` as
/// its index, whatever index it carried, and is otherwise unchanged.
pub open spec fn one_result_each(data: Seq<DataView>, subs: Seq<ResponseView>) -> bool {
    &&& data.len() == subs.len()
    &&& forall|i: int|
        0 <= i < subs.len() ==> #[trigger] data[i] == (DataView {
            index: i as nat,
            ..subs[i].data[0]
        })
}

/// The failure that the fanout edge surfaces when any sub-request failed: no
/// part of the response is exposed, only where the first failure stood.
#[derive(Debug, Clone, Copy, PartialEq, Eq, Structural)]
pub struct InternalFailure {
    pub input_index: usize,
}

/// Appends `data` to `all`, every entry carrying `position` as its index.
fn append_renumbered(
    all: &mut Vec<ClassificationData>,
    data: Vec<ClassificationData>,
    position: usize,
)
    ensures
        data_views(final(all)@) == data_views(old(all)@) + renumbered(
            data_views(data@),
            position as nat,
        ),
{
    let ghost before = data_views(all@);
    for entry in iter: data.into_iter()
        invariant
            iter.seq() == data@,
            before == data_views(old(all)@),
            data_views(all@) == before + renumbered(
                data_views(data@.take(iter.index())),
                position as nat,
            ),
    {
        let ghost was = data_views(all@);
        all.push(
            ClassificationData {
                index: position,
                label: entry.label,
                probs: entry.probs,
                num_classes: entry.num_classes,
            },
        );
        assert(data_views(all@) =~= before + renumbered(
            data_views(data@.take(iter.index() + 1)),
            position as nat,
        )) by {
            let grown = renumbered(data_views(data@.take(iter.index() + 1)), position as nat);
            assert forall|j: int| 0 <= j < data_views(all@).len() implies data_views(all@)[j]
                == (before + grown)[j] by {
                if j < was.len() {
                    assert(data_views(all@)[j] == was[j]);
                }
            }
        }
    }
}

/// Merges the outcomes of the sub-requests of one client request, given in
/// input order, into the response for the client.
///
/// A single failed sub-request fails the whole request: the result is then the
/// position of the first failure and nothing else. Otherwise the results of
/// all sub-responses are concatenated in input order, each with its index set
/// to the position of the input it belongs to, and the token counts are summed.
/// So when each of K sub-responses carries one result, the merged response
/// carries K results, the one at `i` being that of sub-response `i` with index
/// `i`.
pub fn merge_responses(model: String, outcomes: Vec<Outcome>, id: String, created: i64) -> (merged:
    Result<ClassificationResponse, InternalFailure>)
    requires
        usage_fits(outcomes@),
    ensures
        match merged {
            Ok(response) => {
                &&& ok_before(outcomes@, outcomes@.len() as int)
                &&& response@ == self::merged(
                    model@,
                    responses_before(outcomes@, outcomes@.len() as int),
                    id@,
                    created as int,
                )
                &&& single_results(responses_before(outcomes@, outcomes@.len() as int))
                    ==> one_result_each(
                    response@.data,
                    responses_before(outcomes@, outcomes@.len() as int),
                )
            },
            Err(failure) => first_failure_at(outcomes@, failure.input_index as int),
        },
{
    let mut all_data: Vec<ClassificationData> = Vec::new();
    let mut total_prompt_tokens: u32 = 0;
    let mut total_completion_tokens: u32 = 0;
    let mut position: usize = 0;
    assert(outcomes@.len() == outcomes.len());
    for outcome in iter: outcomes.into_iter()
        invariant
            iter.seq() == outcomes@,
            outcomes@.len() <= usize::MAX,
            usage_fits(outcomes@),
            position == iter.index(),
            ok_before(outcomes@, position as int),
            data_views(all_data@) == merged_data(responses_before(outcomes@, position as int)),
            total_prompt_tokens == prompt_total(responses_before(outcomes@, position as int)),
            total_completion_tokens == completion_total(
                responses_before(outcomes@, position as int),
            ),
    {
        match outcome {
            Ok(response) => {
                proof {
                    let grown = responses_before(outcomes@, position + 1);
                    assert(grown.drop_last() =~= responses_before(outcomes@, position as int));
                    assert(sums_fit(outcomes@, position + 1));
                }
                append_renumbered(&mut all_data, response.data, position);
                total_prompt_tokens = total_prompt_tokens + response.usage.prompt_tokens;
                total_completion_tokens = total_completion_tokens
                    + response.usage.completion_tokens;
            },
            Err(_) => {
                return Err(InternalFailure { input_index: position });
            },
        }
        position = position + 1;
    }
    proof {
        let subs = responses_before(outcomes@, outcomes@.len() as int);
        if single_results(subs) {
            law_fanout_round_trip(model@, subs, id@, created as int);
        }
    }
    let response = ClassificationResponse {
        id,
        object: String::from_str("list"),
        created,
        model,
        data: all_data,
        usage: Usage {
            prompt_tokens: total_prompt_tokens,
            total_tokens: total_prompt_tokens + total_completion_tokens,
            completion_tokens: total_completion_tokens,
            prompt_tokens_details: None,
        },
    };
    Ok(response)
}

/// Tells whether the usage of the outcomes can be aggregated in 32 bits, which
/// is what merging them asks for.
pub fn usage_can_be_summed(outcomes: &Vec<Outcome>) -> (fits: bool)
    ensures
        fits == usage_fits(outcomes@),
{
    let mut total_prompt_tokens: u32 = 0;
    let mut total_completion_tokens: u32 = 0;
    let mut position: usize = 0;
    while position < outcomes.len()
        invariant
            position <= outcomes@.len(),
            ok_before(outcomes@, position as int),
            forall|count: int|
                0 <= count <= position && ok_before(outcomes@, count) ==> #[trigger] sums_fit(
                    outcomes@,
                    count,
                ),
            total_prompt_tokens == prompt_total(responses_before(outcomes@, position as int)),
            total_completion_tokens == completion_total(
                responses_before(outcomes@, position as int),
            ),
        decreases outcomes@.len() - position,
    {
        match &outcomes[position] {
            Ok(response) => {
                proof {
                    let grown = responses_before(outcomes@, position + 1);
                    assert(grown.drop_last() =~= responses_before(outcomes@, position as int));
                }
                if response.usage.prompt_tokens > u32::MAX - total_prompt_tokens
                    || response.usage.completion_tokens > u32::MAX - total_completion_tokens {
                    assert(!sums_fit(outcomes@, position + 1));
                    return false;
                }
                total_prompt_tokens = total_prompt_tokens + response.usage.prompt_tokens;
                total_completion_tokens = total_completion_tokens
                    + response.usage.completion_tokens;
            },
            Err(_) => {
                assert(!ok_before(outcomes@, outcomes@.len() as int));
                return true;
            },
        }
        position = position + 1;
    }
    total_completion_tokens <= u32::MAX - total_prompt_tokens
}

/// Merges the outcomes of the sub-requests as [`merge_responses`] does, under
/// a fresh response id and the current time.
pub fn merge_now(model: String, outcomes: Vec<Outcome>) -> (merged: Result<
    ClassificationResponse,
    InternalFailure,
>)
    requires
        usage_fits(outcomes@),
    ensures
        match merged {
            Ok(response) => {
                &&& ok_before(outcomes@, outcomes@.len() as int)
                &&& response@ == self::merged(
                    model@,
                    responses_before(outcomes@, outcomes@.len() as int),
                    response@.id,
                    response@.created,
                )
                &&& single_results(responses_before(outcomes@, outcomes@.len() as int))
                    ==> one_result_each(
                    response@.data,
                    responses_before(outcomes@, outcomes@.len() as int),
                )
                &&& is_response_id(response@.id)
                &&& response@.created >= 0
            },
            Err(failure) => first_failure_at(outcomes@, failure.input_index as int),
        },
{
    let id = fresh_response_id();
    let created = now();
    merge_responses(model, outcomes, id, created)
}

/// The HTTP status that answers a client: 200 with the merged response, 500
/// when any sub-request failed.
pub fn status_code(merged: &Result<ClassificationResponse, InternalFailure>) -> (code: u16)
    ensures
        code == if merged is Ok {
            200u16
        } else {
            500u16
        },
{
    match merged {
        Ok(_) => 200,
        Err(_) => 500,
    }
}

/// Number of results that the sub-responses carry together.
pub open spec fn result_total(subs: Seq<ResponseView>) -> nat
    decreases subs.len(),
{
    if subs.len() == 0 {
        0
    } else {
        result_total(subs.drop_last()) + subs.last().data.len()
    }
}

/// Sum over the sub-responses of prompt tokens plus completion tokens.
pub open spec fn token_total(subs: Seq<ResponseView>) -> nat
    decreases subs.len(),
{
    if subs.len() == 0 {
        0
    } else {
        token_total(subs.drop_last()) + subs.last().usage.prompt_tokens
            + subs.last().usage.completion_tokens
    }
}

/// Merging keeps every result: the merged response carries as many results as
/// the sub-responses carry together.
pub proof fn law_merge_keeps_results(subs: Seq<ResponseView>)
    ensures
        merged_data(subs).len() == result_total(subs),
    decreases subs.len(),
{
    if subs.len() > 0 {
        law_merge_keeps_results(subs.drop_last());
    }
}

/// When every sub-response carries one result, the merged response to a
/// request with K inputs carries K results, the one at position `i` being the
/// result of the sub-response at `i` with `i` as its index: same label, same
/// probabilities, same number of classes.
pub proof fn law_fanout_round_trip(
    model: Seq<char>,
    subs: Seq<ResponseView>,
    id: Seq<char>,
    created: int,
)
    requires
        single_results(subs),
    ensures
        one_result_each(merged(model, subs, id, created).data, subs),
    decreases subs.len(),
{
    if subs.len() > 0 {
        let front = subs.drop_last();
        assert(single_results(front));
        law_fanout_round_trip(model, front, id, created);
        let last = subs.len() - 1;
        assert forall|i: int| 0 <= i < subs.len() implies #[trigger] merged(
            model,
            subs,
            id,
            created,
        ).data[i] == (DataView { index: i as nat, ..subs[i].data[0] }) by {
            if i < last {
                assert(merged(model, front, id, created).data[i] == (DataView {
                    index: i as nat,
                    ..front[i].data[0]
                }));
            }
        }
    }
}

/// When every sub-response carries one result, the merged response to a
/// request with K inputs has K results and the result at position `i` has
/// index `i`.
pub proof fn law_input_count_preserved(
    model: Seq<char>,
    subs: Seq<ResponseView>,
    id: Seq<char>,
    created: int,
)
    requires
        single_results(subs),
    ensures
        merged(model, subs, id, created).data.len() == subs.len(),
        forall|i: int|
            0 <= i < subs.len() ==> (#[trigger] merged(model, subs, id, created).data[i]).index
                == i,
{
    law_fanout_round_trip(model, subs, id, created);
}

/// The merged total is the sum over the sub-responses of prompt tokens plus
/// completion tokens.
pub proof fn law_usage_aggregation(
    model: Seq<char>,
    subs: Seq<ResponseView>,
    id: Seq<char>,
    created: int,
)
    ensures
        merged(model, subs, id, created).usage.total_tokens == token_total(subs),
        merged(model, subs, id, created).usage.total_tokens == merged(
            model,
            subs,
            id,
            created,
        ).usage.prompt_tokens + merged(model, subs, id, created).usage.completion_tokens,
    decreases subs.len(),
{
    if subs.len() > 0 {
        law_usage_aggregation(model, subs.drop_last(), id, created);
    }
}

} // verus!
