//! When a failed upstream request is tried again.
use vstd::prelude::*;

verus! {

/// The retry rules: how many attempts, and which response statuses count as
/// worth retrying. (Delays between attempts are the caller's business.)
pub struct RetryMiddleware {
    max_attempts: u32,
    retry_statuses: Vec<u16>,
}

impl RetryMiddleware {
    pub closed spec fn attempts_allowed(&self) -> u32 {
        self.max_attempts
    }

    pub closed spec fn statuses(&self) -> Seq<u16> {
        self.retry_statuses@
    }

    pub fn new(max_attempts: u32, retry_statuses: Vec<u16>) -> (m: Self)
        ensures
            m.attempts_allowed() == max_attempts,
            m.statuses() == retry_statuses@,
    {
        RetryMiddleware { max_attempts, retry_statuses }
    }

    /// Attempts left: an error is retried, a response only when its status is
    /// one of the retryable ones; nothing is retried once `attempt` reaches
    /// the maximum.
    pub fn should_retry(&self, attempt: u32, status: Option<u16>, is_error: bool) -> (r: bool)
        ensures
            r == (attempt < self.attempts_allowed() && (is_error || (status matches Some(s)
                && self.statuses().contains(s)))),
    {
        if attempt >= self.max_attempts {
            return false;
        }
        if is_error {
            return true;
        }
        if let Some(st) = status {
            let mut i: usize = 0;
            while i < self.retry_statuses.len()
                invariant
                    i <= self.retry_statuses@.len(),
                    attempt < self.max_attempts,
                    status == Some(st),
                    forall|k: int| 0 <= k < i ==> self.retry_statuses@[k] != st,
                decreases self.retry_statuses.len() - i,
            {
                if self.retry_statuses[i] == st {
                    assert(self.retry_statuses@.contains(st)) by {
                        assert(self.retry_statuses@[i as int] == st);
                    }
                    return true;
                }
                i = i + 1;
            }
            return false;
        }
        false
    }

    pub fn max_attempts(&self) -> (r: u32)
        ensures
            r == self.attempts_allowed(),
    {
        self.max_attempts
    }
}

impl Clone for RetryMiddleware {
    fn clone(&self) -> (r: Self)
        ensures
            r.attempts_allowed() == self.attempts_allowed(),
            r.statuses() == self.statuses(),
    {
        let mut statuses: Vec<u16> = Vec::new();
        let mut i: usize = 0;
        while i < self.retry_statuses.len()
            invariant
                i <= self.retry_statuses@.len(),
                statuses@ == self.retry_statuses@.take(i as int),
            decreases self.retry_statuses.len() - i,
        {
            statuses.push(self.retry_statuses[i]);
            assert(statuses@ =~= self.retry_statuses@.take(i + 1));
            i = i + 1;
        }
        assert(self.retry_statuses@.take(self.retry_statuses@.len() as int) =~= self.retry_statuses@);
        RetryMiddleware { max_attempts: self.max_attempts, retry_statuses: statuses }
    }
}

/// The attempts made for one request so far.
pub struct RetryState {
    pub attempt: u32,
    pub last_error: Option<String>,
    pub last_status: Option<u16>,
}

impl RetryState {
    pub fn new() -> (s: Self)
        ensures
            s.attempt == 0,
            s.last_error is None,
            s.last_status is None,
    {
        RetryState { attempt: 0, last_error: None, last_status: None }
    }

    /// Counts one more attempt and remembers how it ended.
    pub fn increment(&mut self, error: Option<String>, status: Option<u16>)
        requires
            old(self).attempt < u32::MAX,
        ensures
            final(self).attempt == old(self).attempt + 1,
            final(self).last_error == error,
            final(self).last_status == status,
    {
        self.attempt = self.attempt + 1;
        self.last_error = error;
        self.last_status = status;
    }
}

/// Retries stop: a request is tried at most `max_attempts + 1` times, since
/// every retry counts one attempt and none is allowed from `max_attempts` on.
pub proof fn lemma_retries_bounded(m: RetryMiddleware, attempt: u32, status: Option<u16>, is_error: bool)
    requires
        attempt >= m.attempts_allowed(),
    ensures
        !(attempt < m.attempts_allowed() && (is_error || (status matches Some(s) && m.statuses().contains(
            s,
        )))),
{
}

impl Default for RetryState {
    fn default() -> (r: Self)
        ensures
            r.attempt == 0,
            r.last_error is None,
            r.last_status is None,
    {
        Self::new()
    }
}

} // verus!
