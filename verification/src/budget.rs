//! Token budgets: what a text is estimated to cost, and what has been used.

use vstd::prelude::*;
use vstd::string::*;

use crate::provider::{ChatResponse, ChatResponseView, Message, MessageView};

verus! {

broadcast use vstd::string::group_string_axioms;

/// The estimated cost of a text of `chars` characters: two tokens for three
/// characters, and one more.
pub open spec fn estimate_chars(chars: nat) -> int {
    (chars * 2 / 3 + 1) as int
}

/// The estimated cost of a text.
pub open spec fn estimate(text: Seq<char>) -> int {
    estimate_chars(text.len())
}

/// The estimated cost of a message: that of its text.
pub open spec fn message_cost(m: MessageView) -> int {
    estimate(m.content.text_or_empty())
}

/// Estimates token counts without a vendor's tokenizer, on the safe side.
pub struct TokenEstimator;

impl TokenEstimator {
    /// The estimated cost of a text.
    pub fn estimate(text: &str) -> (r: u64)
        ensures
            r == estimate(text@),
    {
        let n: u128 = text.unicode_len() as u128;
        let e: u128 = n * 2 / 3 + 1;
        e as u64
    }

    /// The estimated cost of a message.
    pub fn estimate_message(m: &Message) -> (r: u64)
        ensures
            r == message_cost(m.deep_view()),
    {
        TokenEstimator::estimate(m.content.text_or_empty())
    }
}

/// Limits on the tokens of a session and of all sessions; zero is no limit.
#[derive(Debug, Clone, Copy, PartialEq, Eq)]
pub struct BudgetConfig {
    pub session_limit: u64,
    pub global_limit: u64,
}

impl Default for BudgetConfig {
    fn default() -> (r: Self)
        ensures
            r == (BudgetConfig { session_limit: 0, global_limit: 0 }),
    {
        BudgetConfig { session_limit: 0, global_limit: 0 }
    }
}

/// A limit that has been reached.
#[derive(Debug, Clone, Copy, PartialEq, Eq)]
pub enum BudgetError {
    SessionExceeded { used: u64, limit: u64 },
    GlobalExceeded { used: u64, limit: u64 },
}

/// Whether a limit has been reached, and which: the session's comes first.
pub open spec fn budget_verdict(cfg: BudgetConfig, session_used: u64, global_used: u64) -> Result<
    (),
    BudgetError,
> {
    if cfg.session_limit > 0 && session_used >= cfg.session_limit {
        Err(BudgetError::SessionExceeded { used: session_used, limit: cfg.session_limit })
    } else if cfg.global_limit > 0 && global_used >= cfg.global_limit {
        Err(BudgetError::GlobalExceeded { used: global_used, limit: cfg.global_limit })
    } else {
        Ok(())
    }
}

impl BudgetConfig {
    /// Whether a limit has been reached, and which.
    pub fn check(&self, session_used: u64, global_used: u64) -> (r: Result<(), BudgetError>)
        ensures
            r == budget_verdict(*self, session_used, global_used),
    {
        if self.session_limit > 0 && session_used >= self.session_limit {
            return Err(
                BudgetError::SessionExceeded { used: session_used, limit: self.session_limit },
            );
        }
        if self.global_limit > 0 && global_used >= self.global_limit {
            return Err(
                BudgetError::GlobalExceeded { used: global_used, limit: self.global_limit },
            );
        }
        Ok(())
    }
}

/// The tokens that a response cost: the total that it reports.
pub open spec fn response_tokens(r: ChatResponseView) -> u64 {
    match r.usage {
        Some(u) => u.total_tokens as u64,
        None => 0,
    }
}

/// The tokens that a response cost.
pub fn tokens_from_response(resp: &ChatResponse) -> (r: u64)
    ensures
        r == response_tokens(resp.deep_view()),
{
    match &resp.usage {
        Some(u) => u.total_tokens as u64,
        None => 0,
    }
}

/// A count with more added to it, as far as 64 bits go.
pub open spec fn counted(total: u64, more: u64) -> u64 {
    if total + more <= u64::MAX {
        (total + more) as u64
    } else {
        u64::MAX
    }
}

/// Adds tokens to a count.
pub fn add_tokens(total: u64, more: u64) -> (r: u64)
    ensures
        r == counted(total, more),
{
    total.saturating_add(more)
}

/// A reached limit stays reached: using more tokens never opens a budget again.
pub proof fn law_budget_stays_closed(
    cfg: BudgetConfig,
    session_used: u64,
    global_used: u64,
    more: u64,
)
    requires
        budget_verdict(cfg, session_used, global_used) is Err,
    ensures
        budget_verdict(cfg, counted(session_used, more), counted(global_used, more)) is Err,
{
}

} // verus!
