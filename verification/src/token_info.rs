//! What the generator reports about each generated token.
use vstd::prelude::*;
use crate::error::Error;

verus! {

/// One generated token and what is known about it.
#[derive(Debug, Clone)]
pub struct TokenGeneratedInfo {
    pub text: String,
    pub original_token: Vec<u32>,
    pub from_draft: bool,
    pub prompt_tokens: usize,
    pub peak_memory: usize,
    pub finish_reason: Option<String>,
    pub generation_tokens: usize,
}

impl Default for TokenGeneratedInfo {
    fn default() -> (r: TokenGeneratedInfo)
        ensures
            r.text@ == Seq::<char>::empty(),
            r.original_token@ == Seq::<u32>::empty(),
            !r.from_draft,
            r.prompt_tokens == 0,
            r.peak_memory == 0,
            r.finish_reason is None,
            r.generation_tokens == 0,
    {
        TokenGeneratedInfo {
            text: String::new(),
            original_token: Vec::new(),
            from_draft: false,
            prompt_tokens: 0,
            peak_memory: 0,
            finish_reason: None,
            generation_tokens: 0,
        }
    }
}

/// The outcome of asking the tensor runtime for its peak memory use: the
/// value it wrote when it reports success (status 0), an error otherwise.
pub fn peak_memory_from_query(status: i32, value: usize) -> (r: Result<usize, Error>)
    ensures
        status == 0 ==> r == Ok::<usize, Error>(value),
        status != 0 ==> r == Err::<usize, Error>(Error::MemoryPeakQueryFailure),
{
    if status == 0 {
        Ok(value)
    } else {
        Err(Error::MemoryPeakQueryFailure)
    }
}

impl TokenGeneratedInfo {
    /// Records the token and its position among the generated tokens.
    pub fn set_token(&mut self, token: &[u32], generation_tokens: usize)
        ensures
            final(self).original_token@ == token@,
            final(self).generation_tokens == generation_tokens,
            final(self).text == old(self).text,
            final(self).from_draft == old(self).from_draft,
            final(self).prompt_tokens == old(self).prompt_tokens,
            final(self).peak_memory == old(self).peak_memory,
            final(self).finish_reason == old(self).finish_reason,
    {
        let mut v: Vec<u32> = Vec::new();
        let mut i: usize = 0;
        while i < token.len()
            invariant
                0 <= i <= token@.len(),
                v@ == token@.take(i as int),
            decreases token@.len() - i,
        {
            v.push(token[i]);
            i = i + 1;
            assert(v@ =~= token@.take(i as int));
        }
        assert(v@ =~= token@);
        self.original_token = v;
        self.generation_tokens = generation_tokens;
    }

    /// The token; the record holds exactly one.
    pub fn get_token(&self) -> (r: &u32)
        requires
            self.original_token@.len() > 0,
        ensures
            *r == self.original_token@[0],
    {
        &self.original_token[0]
    }

    /// Records the decoded text of the token.
    pub fn set_text(&mut self, text: String)
        ensures
            final(self).text == text,
            final(self).original_token == old(self).original_token,
            final(self).from_draft == old(self).from_draft,
            final(self).prompt_tokens == old(self).prompt_tokens,
            final(self).peak_memory == old(self).peak_memory,
            final(self).finish_reason == old(self).finish_reason,
            final(self).generation_tokens == old(self).generation_tokens,
    {
        self.text = text;
    }

    /// Closes the record: stores the reason generation ended, then the peak
    /// memory use that the runtime reported; a failed query is passed on and
    /// leaves the peak memory as it was.
    pub fn end(&mut self, with_reason: Option<String>, peak_memory: Result<usize, Error>) -> (r: Result<(), Error>)
        ensures
            final(self).finish_reason == with_reason,
            peak_memory matches Ok(m) ==> r is Ok && final(self).peak_memory == m,
            peak_memory matches Err(e) ==> r == Err::<(), Error>(e) && final(self).peak_memory == old(self).peak_memory,
            final(self).text == old(self).text,
            final(self).original_token == old(self).original_token,
            final(self).generation_tokens == old(self).generation_tokens,
            final(self).from_draft == old(self).from_draft,
            final(self).prompt_tokens == old(self).prompt_tokens,
    {
        self.finish_reason = with_reason;
        match peak_memory {
            Ok(m) => {
                self.peak_memory = m;
                Ok(())
            },
            Err(e) => Err(e),
        }
    }
}

} // verus!
