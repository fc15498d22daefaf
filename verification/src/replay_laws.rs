//! What holds of a replay as a whole.

use vstd::prelude::*;

use crate::history::LlmResponseView;
use crate::llm::{next_index, replay_at, LlmErrorView};

verus! {

/// Calls of a replay, one after the other, from the first: the index of the next call, and what
/// each call gave.
pub open spec fn replay(responses: Seq<LlmResponseView>, calls: nat) -> (
    usize,
    Seq<Result<LlmResponseView, LlmErrorView>>,
)
    decreases calls,
{
    if calls == 0 {
        (0, Seq::empty())
    } else {
        let (index, given) = replay(responses, (calls - 1) as nat);
        (next_index(index), given.push(replay_at(responses, index)))
    }
}

/// Calls of a replay get the recorded responses in order, each once. Each call beyond them gets
/// the error with its index. The place moves on by one with every call, whatever the call gets.
pub proof fn law_responses_come_in_order(responses: Seq<LlmResponseView>, calls: nat)
    requires
        calls <= usize::MAX,
    ensures
        ({
            let (index, given) = replay(responses, calls);
            &&& index == calls
            &&& given.len() == calls
            &&& forall|k: int|
                0 <= k < calls ==> #[trigger] given[k] == (if k < responses.len() {
                    Ok::<LlmResponseView, LlmErrorView>(responses[k])
                } else {
                    Err(LlmErrorView::ReplayExhausted { index: k as usize })
                })
        }),
    decreases calls,
{
    if calls > 0 {
        law_responses_come_in_order(responses, (calls - 1) as nat);
    }
}

/// What is recorded for an index is the response at it, as it is, and beyond the responses the
/// error with the index. After the largest index the first comes again.
pub proof fn law_what_is_recorded_for_an_index(responses: Seq<LlmResponseView>, index: usize)
    ensures
        match replay_at(responses, index) {
            Ok(response) => index < responses.len() && response.content
                == responses[index as int].content && response.tool_calls
                == responses[index as int].tool_calls,
            Err(e) => index >= responses.len() && e == (LlmErrorView::ReplayExhausted { index }),
        },
        index < usize::MAX ==> next_index(index) == index + 1,
        next_index(usize::MAX) == 0,
{
}

} // verus!
