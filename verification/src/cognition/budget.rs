//! How many tokens a trace may use.

use vstd::prelude::*;

verus! {

/// What a model costs.
#[derive(Debug, Clone, Copy, PartialEq, Eq, Structural)]
pub enum CostClass {
    Tiny,
    Small,
    Medium,
    Large,
}

/// What a trace has used, and what it may use.
#[derive(Debug)]
pub struct Budget {
    pub trace_id: String,
    pub tokens: u64,
    pub token_limit: Option<u64>,
}

/// A trace would use more tokens than it may.
#[derive(Debug)]
pub struct BudgetExceededError {
    pub trace_id: String,
    pub kind: &'static str,
    pub limit: u64,
    pub observed: u128,
}

impl Budget {
    pub fn new(trace_id: String, token_limit: Option<u64>) -> (r: Budget)
        ensures
            r == (Budget { trace_id, tokens: 0, token_limit }),
    {
        Budget { trace_id, tokens: 0, token_limit }
    }

    /// How many tokens are used.
    pub fn tokens(&self) -> (r: u64)
        ensures
            r == self.tokens,
    {
        self.tokens
    }

    /// Whether so many tokens more are within the limit.
    pub open spec fn allows(self, tokens: u64) -> bool {
        match self.token_limit {
            Some(limit) => self.tokens + tokens <= limit,
            None => true,
        }
    }

    /// Whether so many tokens more are within the limit, and if not, by how
    /// much they are not.
    pub fn assert_can_spend(&self, tokens: u64) -> (r: Result<(), BudgetExceededError>)
        ensures
            r is Ok == self.allows(tokens),
            r matches Err(e) ==> e.trace_id == self.trace_id && e.kind@ == "tokens"@ && Some(e.limit)
                == self.token_limit && e.observed == self.tokens + tokens,
    {
        match self.token_limit {
            Some(limit) => {
                let observed: u128 = self.tokens as u128 + tokens as u128;
                if observed > limit as u128 {
                    return Err(
                        BudgetExceededError {
                            trace_id: self.trace_id.clone(),
                            kind: "tokens",
                            limit,
                            observed,
                        },
                    );
                }
                Ok(())
            },
            None => Ok(()),
        }
    }

    /// Counts tokens as used.
    pub fn charge(&mut self, tokens: u64)
        requires
            old(self).tokens + tokens <= u64::MAX,
        ensures
            *final(self) == (Budget {
                tokens: (old(self).tokens + tokens) as u64,
                ..*old(self)
            }),
    {
        self.tokens = self.tokens + tokens;
    }

    /// Counts tokens as not used after all.
    pub fn refund(&mut self, tokens: u64)
        ensures
            *final(self) == (Budget {
                tokens: if old(self).tokens >= tokens {
                    (old(self).tokens - tokens) as u64
                } else {
                    0
                },
                ..*old(self)
            }),
    {
        if self.tokens >= tokens {
            self.tokens = self.tokens - tokens;
        } else {
            self.tokens = 0;
        }
    }
}

/// What is allowed and then charged stays within the limit, and a refund brings
/// back what was charged.
pub proof fn law_budget_is_kept(b: Budget, tokens: u64)
    requires
        b.allows(tokens),
        b.tokens + tokens <= u64::MAX,
    ensures
        ({
            let after = Budget { tokens: (b.tokens + tokens) as u64, ..b };
            &&& b.token_limit matches Some(limit) ==> after.tokens <= limit
            &&& after.tokens - tokens == b.tokens
        }),
{
}

/// Whether anything limits a trace.
pub fn budget_enforced(token_limit: Option<u64>, has_cost_limit: bool) -> (r: bool)
    ensures
        r == (token_limit is Some || has_cost_limit),
{
    token_limit.is_some() || has_cost_limit
}

/// What is spent is counted, spending is refused exactly where the limit would
/// be passed, and a refund never goes below nothing.
pub proof fn law_spending(b: Budget, tokens: u64, more: u64)
    ensures
        b.token_limit is None ==> b.allows(tokens),
        b.token_limit matches Some(limit) ==> (b.tokens + tokens <= limit ==> b.allows(tokens)),
        b.token_limit matches Some(limit) ==> (b.tokens + tokens > limit ==> !b.allows(tokens)),
        b.allows(tokens) && more <= tokens ==> b.allows(more),
{
}

/// A trace is limited where its tokens or its cost are.
pub proof fn law_budget_enforced(limit: Option<u64>, cost: bool, r: bool)
    requires
        call_ensures(budget_enforced, (limit, cost), r),
    ensures
        cost ==> r,
        limit is Some ==> r,
        !cost && limit is None ==> !r,
{
}

/// Charging adds to what is used, and a refund takes it away again.
pub proof fn law_charges()
    ensures
        forall|b: &mut Budget, n: u64| #[trigger]
            call_ensures(Budget::charge, (b, n), ()) && b.tokens + n <= u64::MAX ==> final(b).tokens
                == b.tokens + n && final(b).token_limit == b.token_limit && final(b).trace_id
                == b.trace_id,
        forall|b: &mut Budget, n: u64| #[trigger]
            call_ensures(Budget::refund, (b, n), ()) ==> (n <= b.tokens ==> final(b).tokens
                == b.tokens - n) && (n > b.tokens ==> final(b).tokens == 0) && final(b).token_limit
                == b.token_limit,
{
}

} // verus!
