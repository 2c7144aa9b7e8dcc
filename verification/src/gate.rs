//! The analysis gate: whether the main assistant should run again.
//!
//! This module builds the request text of a gate call and turns the
//! call's outcome into a decision; without a usable outcome, a heuristic
//! over the transcripts takes over.  The HTTP exchange itself happens
//! outside the library.

use vstd::prelude::*;
use vstd::string::StringExecFns;
use vstd::string::StrSliceExecFns;
use crate::text::{all_white, byte_len, char_is_whitespace, dec_str, is_blank, u64_to_dec, white_char};

verus! {

/// What a gate call needs.
#[derive(Debug, Clone)]
pub struct GateOptions {
    pub api_key: String,
    pub model: String,
    pub main_system_prompt: String,
    pub gate_instructions: String,
}

/// The two request strings of one gate call, with the lengths logged for
/// observability (in bytes, as the transcripts are stored).
#[derive(Debug, Clone)]
pub struct GatePrompt {
    pub system_prompt: String,
    pub user_prompt: String,
    pub current_len: usize,
    pub previous_len: usize,
    pub last_output_len: usize,
}

#[derive(Debug, Clone)]
pub struct GateDecision {
    pub run: bool,
    pub instruction: Option<String>,
    pub reason: Option<String>,
}

pub fn default_gate_model() -> (r: String)
    ensures
        r@ == "gpt-4.1-nano"@,
{
    String::from_str("gpt-4.1-nano")
}

pub fn default_main_system_prompt() -> (r: String)
    ensures
        r@
            == "You are an AI assistant that analyzes conversations and answers questions in the language that conversation is going on"@,
{
    String::from_str(
        "You are an AI assistant that analyzes conversations and answers questions in the language that conversation is going on",
    )
}

pub fn default_gate_instructions() -> (r: String)
    ensures
        r@
            == "Run when there is new, materially different user intent, a new completed question/sentence, or when prior output no longer fits. Skip for partial/unstable ASR text, trivial edits, or small punctuation changes. Also skip if the last assistant output already addresses the current prompt adequately or if the user's thoughts seem unfinished."@,
{
    String::from_str(
        "Run when there is new, materially different user intent, a new completed question/sentence, or when prior output no longer fits. Skip for partial/unstable ASR text, trivial edits, or small punctuation changes. Also skip if the last assistant output already addresses the current prompt adequately or if the user's thoughts seem unfinished.",
    )
}

/// The first request string of a gate call: the role and the rules.
pub open spec fn spec_gate_system_prompt(main: Seq<char>, rules: Seq<char>) -> Seq<char> {
    "You decide if the main assistant should re-run.\nRole: "@ + main + "\nRules: "@ + rules
        + "\nOutput MUST be STRICT JSON with keys: run(boolean), instruction(NEEDED|NOT_NEEDED), reason(string), confidence(number). No extra text."@
}

/// The second request string of a gate call: the transcripts under
/// comparison.
pub open spec fn spec_gate_user_prompt(cur: Seq<char>, prev: Seq<char>, last: Seq<char>) -> Seq<
    char,
> {
    "Current transcript:\n"@ + cur + "\n\nPrevious transcript:\n"@ + prev
        + "\n\nLast output (optional):\n"@ + last
        + "\n\nReturn ONLY this JSON: {\"run\": boolean, \"instruction\": \"NEEDED\"|\"NOT_NEEDED\", \"reason\": string, \"confidence\": number}"@
}

/// Builds the two request strings of a gate call.  An all-white-space
/// transcript needs no call: the result is at once a negative decision.
pub fn prepare_gate_prompt(
    provider_label: &str,
    main_system_prompt: &str,
    gate_instructions: &str,
    current_transcript: &str,
    previous_transcript: &str,
    last_output: Option<&str>,
) -> (r: Result<GatePrompt, GateDecision>)
    ensures
        r is Err <==> all_white(current_transcript@),
        r matches Err(d) ==> {
            &&& !d.run
            &&& d.instruction matches Some(i) && i@ == "NOT_NEEDED"@
            &&& d.reason matches Some(why) && why@ == "Empty transcript"@
        },
        r matches Ok(p) ==> {
            &&& p.system_prompt@ == spec_gate_system_prompt(
                main_system_prompt@,
                gate_instructions@,
            )
            &&& p.user_prompt@ == spec_gate_user_prompt(
                current_transcript@,
                previous_transcript@,
                match last_output {
                    Some(t) => t@,
                    None => Seq::<char>::empty(),
                },
            )
            &&& p.current_len == byte_len(current_transcript)
            &&& p.previous_len == byte_len(previous_transcript)
            &&& p.last_output_len == (match last_output {
                Some(t) => byte_len(t) as int,
                None => 0int,
            })
        },
{
    if is_blank(current_transcript) {
        return Err(
            GateDecision {
                run: false,
                instruction: Some(String::from_str("NOT_NEEDED")),
                reason: Some(String::from_str("Empty transcript")),
            },
        );
    }
    let mut system_prompt = String::from_str("You decide if the main assistant should re-run.\nRole: ");
    system_prompt.append(main_system_prompt);
    system_prompt.append("\nRules: ");
    system_prompt.append(gate_instructions);
    system_prompt.append(
        "\nOutput MUST be STRICT JSON with keys: run(boolean), instruction(NEEDED|NOT_NEEDED), reason(string), confidence(number). No extra text.",
    );
    let (last_output_text, last_output_len) = match last_output {
        Some(text) => (text, text.len()),
        None => ("", 0),
    };
    proof {
        if last_output is None {
            reveal_strlit("");
            assert(""@ =~= Seq::<char>::empty());
        }
    }
    let mut user_prompt = String::from_str("Current transcript:\n");
    user_prompt.append(current_transcript);
    user_prompt.append("\n\nPrevious transcript:\n");
    user_prompt.append(previous_transcript);
    user_prompt.append("\n\nLast output (optional):\n");
    user_prompt.append(last_output_text);
    user_prompt.append(
        "\n\nReturn ONLY this JSON: {\"run\": boolean, \"instruction\": \"NEEDED\"|\"NOT_NEEDED\", \"reason\": string, \"confidence\": number}",
    );
    Ok(
        GatePrompt {
            system_prompt,
            user_prompt,
            current_len: current_transcript.len(),
            previous_len: previous_transcript.len(),
            last_output_len,
        },
    )
}

/// The two diagnostic lines describing a prepared gate request.
pub fn log_gate_prompt(provider_label: &str, model: &str, prompt: &GatePrompt) -> (r: (
    String,
    String,
))
    ensures
        r.0@ == provider_label@ + "(Gate): Prompt system=<<<"@ + prompt.system_prompt@
            + ">>> user=<<<"@ + prompt.user_prompt@ + ">>>"@,
        r.1@ == provider_label@ + "(Gate): Request model="@ + model@ + " current_len="@ + dec_str(
            prompt.current_len as int,
        ) + " previous_len="@ + dec_str(prompt.previous_len as int) + " last_out_len="@ + dec_str(
            prompt.last_output_len as int,
        ),
{
    let mut first = String::from_str(provider_label);
    first.append("(Gate): Prompt system=<<<");
    first.append(prompt.system_prompt.as_str());
    first.append(">>> user=<<<");
    first.append(prompt.user_prompt.as_str());
    first.append(">>>");
    let mut second = String::from_str(provider_label);
    second.append("(Gate): Request model=");
    second.append(model);
    second.append(" current_len=");
    let cur = u64_to_dec(prompt.current_len as u64);
    second.append(cur.as_str());
    second.append(" previous_len=");
    let prev = u64_to_dec(prompt.previous_len as u64);
    second.append(prev.as_str());
    second.append(" last_out_len=");
    let last = u64_to_dec(prompt.last_output_len as u64);
    second.append(last.as_str());
    (first, second)
}

/// Whether the transcript, ignoring trailing white space, ends a sentence.
pub open spec fn spec_ends_sentence(s: Seq<char>) -> bool {
    let t = crate::text::trim_end_rec(s);
    t.len() > 0 && (t.last() == '.' || t.last() == '!' || t.last() == '?')
}

/// The fallback gate heuristic for an unparsable reply: run only when the
/// transcript ends a sentence and grew by at least fifty bytes.
pub fn gate_fallback_run(current: &str, previous: &str) -> (r: bool)
    ensures
        r == (spec_ends_sentence(current@) && byte_len(current) >= byte_len(previous) + 50),
{
    let growth = current.len().saturating_sub(previous.len());
    if growth < 50 {
        return false;
    }
    ends_sentence(current)
}

/// Decides `spec_ends_sentence`.
fn ends_sentence(s: &str) -> (r: bool)
    ensures
        r == spec_ends_sentence(s@),
{
    let len = s.unicode_len();
    let mut b: usize = len;
    while b > 0
        invariant
            b <= len,
            len == s@.len(),
            forall|j: int| b <= j < len ==> white_char(#[trigger] s@[j]),
        decreases b,
    {
        let c = s.get_char(b - 1);
        if !char_is_whitespace(c) {
            proof {
                crate::text::lemma_trim_end_take(s@, b as int);
            }
            return c == '.' || c == '!' || c == '?';
        }
        b = b - 1;
    }
    proof {
        crate::text::lemma_trim_end_take(s@, 0);
    }
    false
}

/// The instruction text implied by a run decision.
pub fn instruction_for(run: bool) -> (r: String)
    ensures
        run ==> r@ == "NEEDED"@,
        !run ==> r@ == "NOT_NEEDED"@,
{
    if run {
        String::from_str("NEEDED")
    } else {
        String::from_str("NOT_NEEDED")
    }
}

/// Interprets what a gate call returned, already parsed (or not) by the
/// shell: a parsed decision is kept, with the instruction defaulted from
/// the run flag; an unparsable return falls back to the transcript
/// heuristic.
pub fn interpret_gate_response(
    parsed: Option<GateDecision>,
    current_transcript: &str,
    previous_transcript: &str,
) -> (r: GateDecision)
    ensures
        parsed matches Some(g) ==> {
            &&& r.run == g.run
            &&& (g.instruction is Some ==> r.instruction == g.instruction)
            &&& (g.instruction is None ==> (r.instruction matches Some(i) && i@ == (if g.run {
                "NEEDED"@
            } else {
                "NOT_NEEDED"@
            })))
            &&& r.reason == g.reason
        },
        parsed is None ==> {
            let run = spec_ends_sentence(current_transcript@) && byte_len(current_transcript)
                >= byte_len(previous_transcript) + 50;
            &&& r.run == run
            &&& (r.instruction matches Some(i) && i@ == (if run {
                "NEEDED"@
            } else {
                "NOT_NEEDED"@
            }))
            &&& (r.reason matches Some(why) && why@ == "Fallback heuristic"@)
        },
{
    match parsed {
        Some(g) => {
            let instruction = match g.instruction {
                Some(i) => Some(i),
                None => Some(instruction_for(g.run)),
            };
            GateDecision { run: g.run, instruction, reason: g.reason }
        },
        None => {
            let run = gate_fallback_run(current_transcript, previous_transcript);
            GateDecision {
                run,
                instruction: Some(instruction_for(run)),
                reason: Some(String::from_str("Fallback heuristic")),
            }
        },
    }
}

} // verus!
