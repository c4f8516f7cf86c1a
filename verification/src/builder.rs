use vstd::prelude::*;

verus! {

/// Settings from which a client is built; `A` is the handle of the auditor
/// that receives audit records.
pub struct APIClientBuilder<A> {
    pub base_url: String,
    pub timeout_secs: u64,
    pub max_concurrent: Option<usize>,
    pub pool_max_idle_per_host: Option<usize>,
    pub auditor: Option<A>,
}

impl<A> APIClientBuilder<A> {
    /// Create a new builder with default settings: a 60 second timeout, at
    /// most 10 concurrent requests, the transport's default idle pool, and no
    /// auditor.
    pub fn new(base_url: String) -> (r: APIClientBuilder<A>)
        ensures
            r.base_url == base_url,
            r.timeout_secs == 60,
            r.max_concurrent == Some(10usize),
            r.pool_max_idle_per_host is None,
            r.auditor is None,
    {
        APIClientBuilder {
            base_url,
            timeout_secs: 60,
            max_concurrent: Some(10),
            pool_max_idle_per_host: None,
            auditor: None,
        }
    }

    /// Set the request timeout in seconds.
    pub fn timeout_secs(self, timeout_secs: u64) -> (r: APIClientBuilder<A>)
        ensures
            r == (APIClientBuilder { timeout_secs, ..self }),
    {
        let mut this = self;
        this.timeout_secs = timeout_secs;
        this
    }

    /// Set the maximum number of concurrent requests; `None` disables the limit.
    pub fn max_concurrent(self, max_concurrent: Option<usize>) -> (r: APIClientBuilder<A>)
        ensures
            r == (APIClientBuilder { max_concurrent, ..self }),
    {
        let mut this = self;
        this.max_concurrent = max_concurrent;
        this
    }

    /// Set the maximum number of idle connections per host in the pool.
    pub fn pool_max_idle_per_host(self, max: usize) -> (r: APIClientBuilder<A>)
        ensures
            r == (APIClientBuilder { pool_max_idle_per_host: Some(max), ..self }),
    {
        let mut this = self;
        this.pool_max_idle_per_host = Some(max);
        this
    }

    /// Set the auditor for request logging.
    pub fn with_auditor(self, auditor: A) -> (r: APIClientBuilder<A>)
        ensures
            r == (APIClientBuilder { auditor: Some(auditor), ..self }),
    {
        let mut this = self;
        this.auditor = Some(auditor);
        this
    }
}

} // verus!
