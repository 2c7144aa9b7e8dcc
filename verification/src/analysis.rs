//! Helpers of the conversation-analysis path: composing the effective
//! system prompt and selecting chat models.  The HTTP calls stay outside
//! the library.

use vstd::prelude::*;
use vstd::multiset::Multiset;
use vstd::seq_lib::lemma_multiset_commutative;
use vstd::string::StringExecFns;
use crate::text::{all_white, is_blank, str_eq, str_starts_with};

verus! {

/// What an analysis call needs.
#[derive(Debug, Clone)]
pub struct OpenAIOptions {
    pub api_key: String,
    pub model: String,
    pub system_prompt: String,
    pub output_policy: String,
}

/// The system prompt actually sent: the assistant's prompt, with its output
/// policy appended when one is configured.
pub fn effective_system_prompt(system_prompt: &str, output_policy: &str) -> (r: String)
    ensures
        all_white(output_policy@) ==> r@ == system_prompt@,
        !all_white(output_policy@) ==> r@ == system_prompt@ + "\n\n"@ + output_policy@,
{
    if is_blank(output_policy) {
        String::from_str(system_prompt)
    } else {
        let mut out = String::from_str(system_prompt);
        out.append("\n\n");
        out.append(output_policy);
        out
    }
}

/// The display rank of a chat model: better-suited models sort first.
pub open spec fn spec_model_priority(m: Seq<char>) -> int {
    if m == "o1-preview"@ {
        1
    } else if m == "o1-mini"@ {
        2
    } else if m == "gpt-4.1-nano"@ {
        3
    } else if m == "gpt-4.1"@ {
        3
    } else if "gpt-4"@.is_prefix_of(m) {
        4
    } else if "gpt-3.5"@.is_prefix_of(m) {
        5
    } else {
        6
    }
}

/// Ranks a model for the model-list ordering.
pub fn get_model_priority(model: &str) -> (r: u32)
    ensures
        r as int == spec_model_priority(model@),
{
    if str_eq(model, "o1-preview") {
        1
    } else if str_eq(model, "o1-mini") {
        2
    } else if str_eq(model, "gpt-4.1-nano") {
        3
    } else if str_eq(model, "gpt-4.1") {
        3
    } else if str_starts_with(model, "gpt-4") {
        4
    } else if str_starts_with(model, "gpt-3.5") {
        5
    } else {
        6
    }
}

/// Whether a model id belongs in the chat-model list.
pub open spec fn spec_chat_model(m: Seq<char>) -> bool {
    "gpt-"@.is_prefix_of(m) || m == "o1-preview"@ || m == "o1-mini"@
}

/// The ids that belong in the chat-model list, in their original order.
pub open spec fn spec_filter_chat_models(ids: Seq<String>) -> Seq<String>
    decreases ids.len(),
{
    if ids.len() == 0 {
        Seq::<String>::empty()
    } else {
        let pre = spec_filter_chat_models(ids.drop_last());
        if spec_chat_model(ids.last()@) {
            pre.push(ids.last())
        } else {
            pre
        }
    }
}

/// Keeps the ids that name chat models, in order.
pub fn filter_chat_models(ids: &Vec<String>) -> (r: Vec<String>)
    ensures
        r@ == spec_filter_chat_models(ids@),
{
    let mut out: Vec<String> = Vec::new();
    let mut i: usize = 0;
    while i < ids.len()
        invariant
            i <= ids@.len(),
            out@ == spec_filter_chat_models(ids@.subrange(0, i as int)),
        decreases ids@.len() - i,
    {
        proof {
            assert(ids@.subrange(0, i as int + 1).drop_last() =~= ids@.subrange(0, i as int));
        }
        let id = &ids[i];
        let keep = str_starts_with(id.as_str(), "gpt-") || str_eq(id.as_str(), "o1-preview")
            || str_eq(id.as_str(), "o1-mini");
        if keep {
            out.push(id.clone());
        }
        i = i + 1;
    }
    proof {
        assert(ids@.subrange(0, ids@.len() as int) =~= ids@);
    }
    out
}

/// Sorts model ids by their display rank, better models first; ids of equal
/// rank keep their relative order.
pub fn sort_models_by_priority(models: &Vec<String>) -> (r: Vec<String>)
    ensures
        forall|i: int, j: int|
            0 <= i < j < r@.len() ==> spec_model_priority(#[trigger] r@[i]@) <= spec_model_priority(
                #[trigger] r@[j]@,
            ),
        r@.to_multiset() == models@.to_multiset(),
{
    let mut out: Vec<String> = Vec::new();
    let n = models.len();
    let mut i: usize = 0;
    proof {
        broadcast use vstd::seq_lib::group_to_multiset_ensures;

        assert(models@.subrange(0, 0) =~= Seq::<String>::empty());
        assert(Seq::<String>::empty().to_multiset() =~= Multiset::<String>::empty());
        assert(out@.to_multiset() =~= Multiset::<String>::empty());
    }
    while i < n
        invariant
            i <= n,
            n == models@.len(),
            forall|x: int, y: int|
                0 <= x < y < out@.len() ==> spec_model_priority(#[trigger] out@[x]@)
                    <= spec_model_priority(#[trigger] out@[y]@),
            out@.to_multiset() == models@.subrange(0, i as int).to_multiset(),
        decreases n - i,
    {
        let m = &models[i];
        let p = get_model_priority(m.as_str());
        let mut j: usize = 0;
        while j < out.len() && get_model_priority(out[j].as_str()) <= p
            invariant
                j <= out@.len(),
                p as int == spec_model_priority(models@[i as int]@),
                forall|k: int|
                    0 <= k < j ==> spec_model_priority(#[trigger] out@[k]@) <= p as int,
            decreases out@.len() - j,
        {
            j = j + 1;
        }
        let ghost before = out@;
        out.insert(j, m.clone());
        proof {
            broadcast use vstd::seq_lib::group_to_multiset_ensures;

            assert forall|x: int, y: int|
                0 <= x < y < out@.len() implies spec_model_priority(#[trigger] out@[x]@)
                <= spec_model_priority(#[trigger] out@[y]@) by {}
            assert(out@ =~= before.take(j as int).push(models@[i as int]) + before.skip(j as int));
            lemma_multiset_commutative(
                before.take(j as int).push(models@[i as int]),
                before.skip(j as int),
            );
            lemma_multiset_commutative(before.take(j as int), before.skip(j as int));
            assert(before =~= before.take(j as int) + before.skip(j as int));
            assert(out@.to_multiset() =~= before.to_multiset().insert(models@[i as int]));
            assert(models@.subrange(0, i as int + 1).drop_last() =~= models@.subrange(0, i as int));
            assert(models@.subrange(0, i as int + 1) =~= models@.subrange(0, i as int).push(
                models@[i as int],
            ));
        }
        i = i + 1;
    }
    proof {
        assert(models@.subrange(0, n as int) =~= models@);
    }
    out
}

} // verus!
