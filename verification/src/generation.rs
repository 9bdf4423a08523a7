//! The decisions around token generation: how a prompt is fed in chunks,
//! when the generation loop stops, and how streamed tokens are turned into
//! the reply text.
use vstd::prelude::*;
use std::collections::HashSet;
use vstd::string::StringExecFns;
use crate::error::Error;
use crate::token_info::TokenGeneratedInfo;

verus! {

broadcast use vstd::std_specs::hash::group_hash_axioms;

/// The number of prompt tokens fed to the model in one prefill chunk.
pub const PREFILL_STEP_SIZE: i32 = 128;

/// The default bound on the number of generated tokens.
pub const DEFAULT_MAX_TOKENS: usize = 10000000;

/// How many whole chunks a prompt of `total` tokens is prefilled in before its
/// last, at most chunk-sized, part is run together with the first step.
pub open spec fn prefill_chunk_count(total: int) -> int {
    if total > 128 { (total - 1) / 128 } else { 0 }
}

/// The number of chunks the prefill runs and the number of prompt tokens
/// they take: chunks are taken while more than one chunk's worth is left.
pub fn prefill_plan(total_prompt_tokens: i32) -> (r: (i32, i32))
    ensures
        r.0 == prefill_chunk_count(total_prompt_tokens as int),
        r.1 == r.0 * 128,
        total_prompt_tokens > 0 ==> 0 < total_prompt_tokens - r.1 <= 128,
        total_prompt_tokens <= 0 ==> r.0 == 0,
{
    let mut processed: i32 = 0;
    let mut chunks: i32 = 0;
    while total_prompt_tokens - processed > PREFILL_STEP_SIZE
        invariant
            processed == chunks * 128,
            0 <= chunks,
            processed <= total_prompt_tokens || chunks == 0,
            total_prompt_tokens > 128 ==> processed <= total_prompt_tokens - 1,
            chunks <= prefill_chunk_count(total_prompt_tokens as int),
        decreases total_prompt_tokens - processed,
    {
        processed = processed + PREFILL_STEP_SIZE;
        chunks = chunks + 1;
    }
    (chunks, processed)
}

/// Where the generation loop stands: how many tokens it has produced, its
/// bound, and whether it was asked to stop.
#[derive(Debug, Clone, Copy)]
pub struct GenerationProgress {
    pub n: usize,
    pub max_tokens: usize,
    pub stop: bool,
    pub total_generated_tokens: usize,
}

/// What the loop does after a token has been produced and reported.
#[derive(Debug, Clone, Copy, PartialEq, Eq)]
pub enum StepAction {
    /// The token ends the generation.
    Finish,
    /// Generation goes on; the compile cache is cleared first when asked.
    Continue { clear_cache: bool },
}

impl GenerationProgress {
    /// The state of a generator that has produced nothing yet.
    pub fn new(max_tokens: usize) -> (r: Self)
        ensures
            r.n == 0,
            r.max_tokens == max_tokens,
            !r.stop,
            r.total_generated_tokens == 0,
    {
        GenerationProgress { n: 0, max_tokens, stop: false, total_generated_tokens: 0 }
    }

    /// Whether the loop produces another token.
    pub fn can_step(&self) -> (r: bool)
        ensures
            r == (self.n != self.max_tokens && !self.stop),
    {
        self.n != self.max_tokens && !self.stop
    }

    /// Decides what follows the token produced at step `n`: an end-of-turn
    /// token finishes the generation; any other token is counted, and the
    /// compile cache is cleared every 256 steps.
    pub fn after_token(&mut self, token: u32, eot_ids: &HashSet<u32>) -> (r: StepAction)
        requires
            old(self).n < old(self).max_tokens,
            old(self).total_generated_tokens == old(self).n,
        ensures
            eot_ids@.contains(token) ==> r == StepAction::Finish && *final(self) == *old(self),
            !eot_ids@.contains(token) ==> {
                &&& r == (StepAction::Continue { clear_cache: old(self).n % 256 == 0 })
                &&& final(self).n == old(self).n + 1
                &&& final(self).total_generated_tokens == old(self).total_generated_tokens + 1
                &&& final(self).max_tokens == old(self).max_tokens
                &&& final(self).stop == old(self).stop
            },
    {
        if eot_ids.contains(&token) {
            return StepAction::Finish;
        }
        let clear_cache = self.n % 256 == 0;
        self.n = self.n + 1;
        self.total_generated_tokens = self.total_generated_tokens + 1;
        StepAction::Continue { clear_cache }
    }
}

/// Tracks the header of a reply: the first header token opens it, the next
/// one closes it.
#[derive(Debug, Clone, Copy)]
pub struct HeaderTracker {
    pub has_header_start: bool,
    pub has_header_end: bool,
}

impl HeaderTracker {
    pub fn new() -> (r: Self)
        ensures
            !r.has_header_start,
            !r.has_header_end,
    {
        HeaderTracker { has_header_start: false, has_header_end: false }
    }

    /// Takes one streamed token into account.
    pub fn observe(&mut self, token: u32, header_token_ids: &HashSet<u32>)
        ensures
            final(self).has_header_start == (old(self).has_header_start || header_token_ids@.contains(token)),
            final(self).has_header_end == (old(self).has_header_end || (old(self).has_header_start
                && header_token_ids@.contains(token))),
    {
        let is_header = header_token_ids.contains(&token);
        if !self.has_header_start && is_header {
            self.has_header_start = true;
        } else if !self.has_header_end && self.has_header_start && is_header {
            self.has_header_end = true;
        }
    }

    /// Text is shown outside the header: before one starts or after it ends.
    pub open spec fn spec_shows_text(&self) -> bool {
        !self.has_header_start || (self.has_header_start && self.has_header_end)
    }
}

/// Stores the decoded text of a token when it lies outside the header.
pub fn decode_response_from_generated_token_info(generated_token_info: &mut TokenGeneratedInfo, decoded: String, has_header_start: bool, has_header_end: bool)
    ensures
        (!has_header_start || (has_header_start && has_header_end)) ==> final(generated_token_info).text == decoded,
        !(!has_header_start || (has_header_start && has_header_end)) ==> final(generated_token_info).text == old(generated_token_info).text,
        final(generated_token_info).original_token == old(generated_token_info).original_token,
        final(generated_token_info).generation_tokens == old(generated_token_info).generation_tokens,
        final(generated_token_info).finish_reason == old(generated_token_info).finish_reason,
        final(generated_token_info).peak_memory == old(generated_token_info).peak_memory,
        final(generated_token_info).from_draft == old(generated_token_info).from_draft,
        final(generated_token_info).prompt_tokens == old(generated_token_info).prompt_tokens,
{
    if !has_header_start || has_header_start && has_header_end {
        generated_token_info.set_text(decoded);
    }
}

/// The texts of the received tokens, in order.
pub open spec fn reply_text(responses: Seq<TokenGeneratedInfo>) -> Seq<char>
    decreases responses.len(),
{
    if responses.len() == 0 {
        Seq::empty()
    } else {
        reply_text(responses.drop_last()) + responses.last().text@
    }
}

/// The receiving side of a generation: the tokens received so far and
/// whether an end-of-turn token has arrived.
#[derive(Debug)]
pub struct TokenStream {
    pub responses: Vec<TokenGeneratedInfo>,
    pub stop: bool,
    pub header: HeaderTracker,
}

impl TokenStream {
    pub fn new() -> (r: Self)
        ensures
            r.responses@.len() == 0,
            !r.stop,
            !r.header.has_header_start,
            !r.header.has_header_end,
    {
        TokenStream { responses: Vec::new(), stop: false, header: HeaderTracker::new() }
    }

    /// Takes one streamed token, with the text the tokenizer decoded for it
    /// and the peak memory the runtime reported, and returns the text handed
    /// to the caller's callback. The stream stops at an end-of-turn token.
    pub fn receive(&mut self, gti: TokenGeneratedInfo, decoded: String, peak_memory: Result<usize, Error>, eot_ids: &HashSet<u32>, header_token_ids: &HashSet<u32>) -> (sent: String)
        requires
            gti.original_token@.len() > 0,
        ensures
            final(self).stop == eot_ids@.contains(gti.original_token@[0]),
            final(self).header.has_header_start == (old(self).header.has_header_start
                || header_token_ids@.contains(gti.original_token@[0])),
            final(self).header.has_header_end == (old(self).header.has_header_end || (
            old(self).header.has_header_start && header_token_ids@.contains(gti.original_token@[0]))),
            final(self).responses@.len() == old(self).responses@.len() + 1,
            final(self).responses@.drop_last() == old(self).responses@,
            final(self).header.spec_shows_text() ==> sent == decoded,
            !final(self).header.spec_shows_text() ==> sent == gti.text,
            final(self).responses@.last().text == sent,
            final(self).responses@.last().original_token == gti.original_token,
            final(self).responses@.last().finish_reason is None,
            peak_memory matches Ok(m) ==> final(self).responses@.last().peak_memory == m,
            peak_memory is Err ==> final(self).responses@.last().peak_memory == gti.peak_memory,
            final(self).responses@.last().generation_tokens == gti.generation_tokens,
            final(self).responses@.last().from_draft == gti.from_draft,
            final(self).responses@.last().prompt_tokens == gti.prompt_tokens,
    {
        let mut gti = gti;
        let token = *gti.get_token();
        self.stop = eot_ids.contains(&token);
        self.header.observe(token, header_token_ids);
        decode_response_from_generated_token_info(
            &mut gti,
            decoded,
            self.header.has_header_start,
            self.header.has_header_end,
        );
        let sent = gti.text.clone();
        let _ = gti.end(None, peak_memory);
        self.responses.push(gti);
        sent
    }

    /// The reply: the texts of all received tokens, in order.
    pub fn get_text(&self) -> (r: String)
        ensures
            r@ == reply_text(self.responses@),
    {
        let mut out = String::new();
        let mut i: usize = 0;
        while i < self.responses.len()
            invariant
                0 <= i <= self.responses@.len(),
                out@ == reply_text(self.responses@.take(i as int)),
            decreases self.responses@.len() - i,
        {
            assert(self.responses@.take(i + 1).drop_last() =~= self.responses@.take(i as int));
            out.append(self.responses[i].text.as_str());
            i = i + 1;
        }
        assert(self.responses@.take(i as int) =~= self.responses@);
        out
    }
}

/// Each received token extends the reply by exactly the text that was handed
/// to the caller for it: the reply is the concatenation of the texts sent, in
/// order.
pub proof fn lemma_reply_grows_by_sent_text(before: Seq<TokenGeneratedInfo>, after: Seq<TokenGeneratedInfo>, sent: String)
    requires
        after.len() == before.len() + 1,
        after.drop_last() == before,
        after.last().text == sent,
    ensures
        reply_text(after) == reply_text(before) + sent@,
{
}

} // verus!
