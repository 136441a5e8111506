//! Client-side state for reaching the metadata service.
//!
//! The client keeps the list of metadata service addresses and which one it
//! talks to; on a retriable failure it moves to the next one and waits
//! longer each time. The program makes the calls and sleeps; what stands here
//! decides what each outcome leads to.

use vstd::prelude::*;
use std::time::Duration;
use vstd::arithmetic::power2::{pow2, lemma_pow2_unfold};
use crate::config::{ClusterConfig, cluster_timing_defaults};
use crate::decimal::{decimal_digits, u64_to_decimal};
use crate::error::{DistributedError, Result, spec_is_retriable};
use crate::time::{duration_from_secs, spec_duration_nanos};

verus! {

/// The longest duration `Duration` holds, in nanoseconds.
pub open spec fn max_duration_nanos() -> int {
    u64::MAX as int * 1_000_000_000 + 999_999_999
}

/// A duration `k` times as long.
///
/// Calls `Duration * u32` (`Mul::mul`), documented to panic when the result
/// overflows, which the precondition excludes; the result is `k` times as
/// long.
#[verifier::external_body]
fn duration_times(d: Duration, k: u32) -> (r: Duration)
    requires
        spec_duration_nanos(d) * k <= max_duration_nanos(),
    ensures
        spec_duration_nanos(r) == spec_duration_nanos(d) * k,
{
    d * k
}

/// Two to the power `e`, for `e` below 32.
pub fn pow2_u32(e: u32) -> (r: u32)
    requires
        e < 32,
    ensures
        r == pow2(e as nat),
{
    let mut r: u32 = 1;
    let mut i: u32 = 0;
    proof {
        assert(pow2(0) == 1) by {
            vstd::arithmetic::power2::lemma_pow2(0);
            vstd::arithmetic::power::lemma_pow0(2);
        }
    }
    while i < e
        invariant
            i <= e < 32,
            r == pow2(i as nat),
        decreases e - i,
    {
        proof {
            lemma_pow2_unfold((i + 1) as nat);
            vstd::arithmetic::power2::lemma_pow2_strictly_increases((i + 1) as nat, 32);
            vstd::arithmetic::power2::lemma2_to64();
        }
        r = r * 2;
        i = i + 1;
    }
    r
}

/// Client for connecting to MetaServer.
#[derive(Debug)]
pub struct MetaClient {
    config: ClusterConfig,
    meta_addrs: Vec<String>,
    current_primary: usize,
    connect_timeout: Duration,
    request_timeout: Duration,
}

/// What follows one attempt of a request.
#[derive(Debug)]
pub enum RetryStep<T> {
    /// The request is done with this outcome
    Finish(Result<T>),
    /// Wait this long, then try again at the next address
    RetryAfter(Duration),
}

impl MetaClient {
    /// The addresses of the metadata service.
    pub closed spec fn addrs(&self) -> Seq<Seq<char>> {
        self.meta_addrs@.map_values(|a: String| a@)
    }

    /// The index of the address in use.
    pub closed spec fn primary(&self) -> usize {
        self.current_primary
    }

    /// The configuration the client was made with.
    pub closed spec fn spec_config(&self) -> ClusterConfig {
        self.config
    }

    /// The index in use is an index of the list, or 0 for an empty list.
    pub closed spec fn wf(&self) -> bool {
        self.current_primary == 0 || self.current_primary < self.meta_addrs@.len()
    }

    /// Create a new MetaClient with the given configuration.
    pub fn new(config: ClusterConfig) -> (c: Self)
        ensures
            c.wf(),
            c.addrs() == config.meta_server_addrs@.map_values(|a: String| a@),
            c.primary() == 0,
            c.spec_config() == config,
    {
        let mut addrs: Vec<String> = Vec::new();
        let mut i: usize = 0;
        while i < config.meta_server_addrs.len()
            invariant
                i <= config.meta_server_addrs.len(),
                addrs@ == config.meta_server_addrs@.take(i as int),
            decreases config.meta_server_addrs.len() - i,
        {
            addrs.push(config.meta_server_addrs[i].clone());
            i = i + 1;
            assert(addrs@ =~= config.meta_server_addrs@.take(i as int));
        }
        assert(config.meta_server_addrs@.take(config.meta_server_addrs.len() as int) =~= config.meta_server_addrs@);
        let connect_timeout = config.connect_timeout;
        let request_timeout = config.request_timeout;
        MetaClient { config, meta_addrs: addrs, current_primary: 0, connect_timeout, request_timeout }
    }

    /// Create a MetaClient from a list of addresses, with default settings.
    pub fn from_addrs(addrs: Vec<String>) -> (c: Self)
        ensures
            c.wf(),
            c.addrs() == addrs@.map_values(|a: String| a@),
            c.primary() == 0,
            cluster_timing_defaults(c.spec_config()),
            c.spec_config().cluster_name@ == "influxdb3-cluster"@,
    {
        let config = ClusterConfig::default().with_meta_servers(addrs);
        MetaClient::new(config)
    }

    /// The addresses of the metadata service.
    pub fn meta_addrs(&self) -> (a: &Vec<String>)
        ensures
            a@.map_values(|x: String| x@) == self.addrs(),
    {
        &self.meta_addrs
    }

    /// Get the current primary MetaServer address.
    pub fn current_addr(&self) -> (a: Option<String>)
        ensures
            self.primary() < self.addrs().len() ==> (a matches Some(x) && x@ == self.addrs()[self.primary() as int]),
            self.primary() >= self.addrs().len() ==> a is None,
    {
        if self.current_primary < self.meta_addrs.len() {
            Some(self.meta_addrs[self.current_primary].clone())
        } else {
            None
        }
    }

    /// Move to the next MetaServer address, wrapping around.
    pub fn try_next_addr(&mut self)
        requires
            old(self).wf(),
            old(self).addrs().len() > 0,
        ensures
            final(self).wf(),
            final(self).addrs() == old(self).addrs(),
            final(self).spec_config() == old(self).spec_config(),
            final(self).primary() == (old(self).primary() + 1) % (old(self).addrs().len() as int),
    {
        assert(self.addrs().len() == self.meta_addrs@.len());
        assert(self.current_primary < self.meta_addrs.len());
        self.current_primary = (self.current_primary + 1) % self.meta_addrs.len();
    }

    /// The base of the backoff between attempts.
    pub fn retry_backoff_base(&self) -> (d: Duration)
        ensures
            d == self.spec_config().retry_backoff_base,
    {
        self.config.retry_backoff_base
    }

    /// Decides what follows an attempt of a request: success and
    /// non-retriable failures finish it; a retriable failure moves to the
    /// next address and waits the backoff base times two to the attempt.
    pub fn after_attempt<T>(&mut self, attempt: u32, outcome: Result<T>, last_error: &mut Option<DistributedError>) -> (step: RetryStep<T>)
        requires
            old(self).wf(),
            old(self).addrs().len() > 0,
            outcome matches Err(e) && spec_is_retriable(e) ==> attempt < 32 && spec_duration_nanos(
                old(self).spec_config().retry_backoff_base,
            ) * pow2(attempt as nat) <= max_duration_nanos(),
        ensures
            final(self).wf(),
            final(self).addrs() == old(self).addrs(),
            final(self).spec_config() == old(self).spec_config(),
            outcome is Ok ==> step == RetryStep::Finish(outcome) && final(self).primary() == old(self).primary()
                && *final(last_error) == *old(last_error),
            outcome matches Err(e) ==> (!spec_is_retriable(e) ==> step == RetryStep::<T>::Finish(outcome)
                && final(self).primary() == old(self).primary() && *final(last_error) == *old(last_error)),
            outcome matches Err(e) ==> (spec_is_retriable(e) ==> (step matches RetryStep::RetryAfter(d)
                && spec_duration_nanos(d) == spec_duration_nanos(old(self).spec_config().retry_backoff_base) * pow2(attempt as nat)
                && final(self).primary() == (old(self).primary() + 1) % (old(self).addrs().len() as int)
                && *final(last_error) == Some(e))),
    {
        match outcome {
            Ok(v) => RetryStep::Finish(Ok(v)),
            Err(e) => {
                if e.is_retriable() {
                    *last_error = Some(e);
                    self.try_next_addr();
                    let factor = pow2_u32(attempt);
                    let backoff = duration_times(self.config.retry_backoff_base, factor);
                    RetryStep::RetryAfter(backoff)
                } else {
                    RetryStep::Finish(Err(e))
                }
            },
        }
    }
}

/// The message when every attempt of a request failed without a recorded
/// error.
pub open spec fn retries_message(operation: Seq<char>, max_retries: usize) -> Seq<char> {
    operation + " failed after "@ + decimal_digits(max_retries as nat) + " retries"@
}

/// The error when the attempts ran out: the last recorded error, else an
/// internal error naming the operation and the number of attempts.
pub fn retries_exhausted(operation: &str, max_retries: usize, last_error: Option<DistributedError>) -> (e: DistributedError)
    ensures
        last_error matches Some(x) ==> e == x,
        last_error is None ==> (e matches DistributedError::Internal(m) && m@ == retries_message(operation@, max_retries)),
{
    match last_error {
        Some(x) => x,
        None => {
            let mut m = String::from_str(operation);
            m.append(" failed after ");
            let n = u64_to_decimal(max_retries as u64);
            m.append(n.as_str());
            m.append(" retries");
            proof {
                reveal_strlit(" failed after ");
                reveal_strlit(" retries");
            }
            DistributedError::Internal(m)
        },
    }
}

/// Builder for MetaClient.
#[derive(Debug)]
pub struct MetaClientBuilder {
    addrs: Vec<String>,
    connect_timeout: Option<Duration>,
    request_timeout: Option<Duration>,
}

impl MetaClientBuilder {
    /// The addresses added so far.
    pub closed spec fn spec_addrs(&self) -> Seq<Seq<char>> {
        self.addrs@.map_values(|a: String| a@)
    }

    /// The connection timeout set, if any.
    pub closed spec fn spec_connect_timeout(&self) -> Option<Duration> {
        self.connect_timeout
    }

    /// The request timeout set, if any.
    pub closed spec fn spec_request_timeout(&self) -> Option<Duration> {
        self.request_timeout
    }

    /// An empty builder.
    pub fn new() -> (b: Self)
        ensures
            b.spec_addrs().len() == 0,
            b.spec_connect_timeout() is None,
            b.spec_request_timeout() is None,
    {
        let b = MetaClientBuilder { addrs: Vec::new(), connect_timeout: None, request_timeout: None };
        assert(b.spec_addrs() =~= Seq::<Seq<char>>::empty());
        b
    }

    /// Adds an address.
    pub fn add_addr(self, addr: String) -> (b: Self)
        ensures
            b.spec_addrs() == self.spec_addrs().push(addr@),
            b.spec_connect_timeout() == self.spec_connect_timeout(),
            b.spec_request_timeout() == self.spec_request_timeout(),
    {
        let mut b = self;
        let ghost before = b.addrs@;
        b.addrs.push(addr);
        assert(b.addrs@.map_values(|a: String| a@) =~= before.map_values(|a: String| a@).push(addr@));
        b
    }

    /// Adds several addresses.
    pub fn with_addrs(self, addrs: Vec<String>) -> (b: Self)
        ensures
            b.spec_addrs() == self.spec_addrs() + addrs@.map_values(|a: String| a@),
            b.spec_connect_timeout() == self.spec_connect_timeout(),
            b.spec_request_timeout() == self.spec_request_timeout(),
    {
        let mut b = self;
        let ghost before = b.addrs@;
        let mut more = addrs;
        let ghost extra = more@;
        b.addrs.append(&mut more);
        assert(b.addrs@.map_values(|a: String| a@) =~= before.map_values(|a: String| a@) + extra.map_values(|a: String| a@));
        b
    }

    /// Set the connection timeout.
    pub fn connect_timeout(self, timeout: Duration) -> (b: Self)
        ensures
            b.spec_addrs() == self.spec_addrs(),
            b.spec_connect_timeout() == Some(timeout),
            b.spec_request_timeout() == self.spec_request_timeout(),
    {
        let mut b = self;
        b.connect_timeout = Some(timeout);
        b
    }

    /// Set the request timeout.
    pub fn request_timeout(self, timeout: Duration) -> (b: Self)
        ensures
            b.spec_addrs() == self.spec_addrs(),
            b.spec_connect_timeout() == self.spec_connect_timeout(),
            b.spec_request_timeout() == Some(timeout),
    {
        let mut b = self;
        b.request_timeout = Some(timeout);
        b
    }

    /// Build the client; at least one address is needed.
    pub fn build(self) -> (r: Result<MetaClient>)
        ensures
            self.spec_addrs().len() == 0 ==> (r matches Err(DistributedError::ConfigError(m)) && m@
                == "At least one MetaServer address is required"@),
            self.spec_addrs().len() > 0 ==> (r matches Ok(c) && c.wf() && c.addrs() == self.spec_addrs()
                && c.primary() == 0 && (self.spec_connect_timeout() matches Some(t) ==> c.spec_config().connect_timeout
                == t) && (self.spec_request_timeout() matches Some(t) ==> c.spec_config().request_timeout == t)),
    {
        if self.addrs.len() == 0 {
            proof {
                reveal_strlit("At least one MetaServer address is required");
            }
            return Err(DistributedError::ConfigError(String::from_str("At least one MetaServer address is required")));
        }
        let connect = self.connect_timeout;
        let request = self.request_timeout;
        let mut config = ClusterConfig::default().with_meta_servers(self.addrs);
        if let Some(timeout) = connect {
            config = config.with_connect_timeout(timeout);
        }
        if let Some(timeout) = request {
            config = config.with_request_timeout(timeout);
        }
        Ok(MetaClient::new(config))
    }
}

impl Default for MetaClientBuilder {
    fn default() -> (b: Self)
        ensures
            b.spec_addrs().len() == 0,
            b.spec_connect_timeout() is None,
            b.spec_request_timeout() is None,
    {
        MetaClientBuilder::new()
    }
}

/// Builder for the settings of a datanode client.
#[derive(Debug, Clone, Copy)]
pub struct DatanodeClientBuilder {
    connect_timeout: Option<Duration>,
    request_timeout: Option<Duration>,
}

impl DatanodeClientBuilder {
    /// The connection timeout set, if any.
    pub closed spec fn spec_connect_timeout(&self) -> Option<Duration> {
        self.connect_timeout
    }

    /// The request timeout set, if any.
    pub closed spec fn spec_request_timeout(&self) -> Option<Duration> {
        self.request_timeout
    }

    /// Create a new builder.
    pub fn new() -> (b: Self)
        ensures
            b.spec_connect_timeout() is None,
            b.spec_request_timeout() is None,
    {
        DatanodeClientBuilder { connect_timeout: None, request_timeout: None }
    }

    /// Set the connection timeout.
    pub fn connect_timeout(self, timeout: Duration) -> (b: Self)
        ensures
            b.spec_connect_timeout() == Some(timeout),
            b.spec_request_timeout() == self.spec_request_timeout(),
    {
        let mut b = self;
        b.connect_timeout = Some(timeout);
        b
    }

    /// Set the request timeout.
    pub fn request_timeout(self, timeout: Duration) -> (b: Self)
        ensures
            b.spec_connect_timeout() == self.spec_connect_timeout(),
            b.spec_request_timeout() == Some(timeout),
    {
        let mut b = self;
        b.request_timeout = Some(timeout);
        b
    }

    /// The timeouts a built client uses: those set, else 5 s to connect and
    /// 30 s per request.
    pub fn resolved_timeouts(&self) -> (t: (Duration, Duration))
        ensures
            self.spec_connect_timeout() matches Some(c) ==> t.0 == c,
            self.spec_connect_timeout() is None ==> spec_duration_nanos(t.0) == 5_000_000_000,
            self.spec_request_timeout() matches Some(r) ==> t.1 == r,
            self.spec_request_timeout() is None ==> spec_duration_nanos(t.1) == 30_000_000_000,
    {
        let c = match self.connect_timeout {
            Some(c) => c,
            None => duration_from_secs(5),
        };
        let r = match self.request_timeout {
            Some(r) => r,
            None => duration_from_secs(30),
        };
        (c, r)
    }
}

impl Default for DatanodeClientBuilder {
    fn default() -> (b: Self)
        ensures
            b.spec_connect_timeout() is None,
            b.spec_request_timeout() is None,
    {
        DatanodeClientBuilder::new()
    }
}


/// The backoff after a failed attempt doubles from one attempt to the next.
pub proof fn law_backoff_doubles(base_nanos: nat, attempt: nat)
    ensures
        base_nanos * pow2(attempt + 1) == 2 * (base_nanos * pow2(attempt)),
{
    lemma_pow2_unfold(attempt + 1);
    assert(base_nanos * (2 * pow2(attempt)) == 2 * (base_nanos * pow2(attempt))) by (nonlinear_arith);
}

} // verus!
