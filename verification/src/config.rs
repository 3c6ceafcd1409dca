use vstd::prelude::*;

verus! {

/// The certificate files of the TLS endpoint.
#[derive(Debug, Clone, PartialEq, Eq)]
pub struct TLS {
    pub prv_key: String,
    pub cert: String,
    pub ca: String,
}

/// The settings of a service, as read from its configuration file.
#[derive(Debug, Clone, PartialEq, Eq)]
pub struct Config {
    pub host: String,
    pub db_url: String,
    pub broker_url: String,
    pub transpiler_url: String,
    /// The address of the key-value store.
    pub redis_url: String,
    pub tls: TLS,
}

/// Declares `redis::Client`, the handle on the key-value store.
#[verifier::external_type_specification]
#[verifier::external_body]
pub struct ExRedisClient(redis::Client);

/// Declares `redis::RedisError`, what `redis` reports when it refuses.
#[verifier::external_type_specification]
#[verifier::external_body]
pub struct ExRedisError(redis::RedisError);

/// Whether `redis::Client::open` accepts `url` as the address of a store.
pub uninterp spec fn redis_url_accepted(url: Seq<char>) -> bool;

/// The client that `redis::Client::open` builds for an accepted address.
pub uninterp spec fn redis_client_of(url: Seq<char>) -> redis::Client;

/// Calls `redis::Client::open`, which only parses the address and opens no
/// connection: `Ok` with a client where the address is accepted, `Err` with
/// the parser's report where it is not.
#[verifier::external_body]
fn open_redis_client(url: &str) -> (client: Result<redis::Client, redis::RedisError>)
    ensures
        client is Ok <==> redis_url_accepted(url@),
        client matches Ok(c) ==> c == redis_client_of(url@),
{
    redis::Client::open(url)
}

/// The handle on the key-value store at `url`, or why `redis` refuses the address.
pub fn redis_client(url: &str) -> (client: Result<redis::Client, redis::RedisError>)
    ensures
        client is Ok <==> redis_url_accepted(url@),
        client matches Ok(c) ==> c == redis_client_of(url@),
{
    open_redis_client(url)
}

/// The addresses of the services that a service talks to.
#[derive(Debug, Clone, PartialEq, Eq)]
pub struct ServiceAddresses {
    pub historical: String,
    pub symbol: String,
}

/// The configuration file read where none is given.
pub const DEFAULT_CONFIG_PATH: &'static str = "/etc/midas/midas.yml";

/// The configuration file to read: the given one, else the default.
pub fn config_path(path: Option<String>) -> (resolved: String)
    ensures
        resolved@ == match path {
            Some(p) => p@,
            None => DEFAULT_CONFIG_PATH@,
        },
{
    match path {
        Some(p) => p,
        None => String::from_str(DEFAULT_CONFIG_PATH),
    }
}

/// The number of times a connection to the store is attempted.
pub const MAX_CONNECTION_ATTEMPTS: usize = 10;

/// What to do after a connection attempt.
#[derive(Debug, Clone, Copy, PartialEq, Eq, Structural)]
pub enum RetryAction {
    /// The attempt connected: use the connection.
    Connected,
    /// The attempt failed: try again.
    Retry,
    /// The attempt failed and none is left: report `MaximumAttemptExceeded`.
    GiveUp,
}

/// The decision after an attempt, when `failed` attempts failed before it.
pub open spec fn retry_action(failed: nat, connected: bool) -> RetryAction {
    if connected {
        RetryAction::Connected
    } else if failed + 1 >= MAX_CONNECTION_ATTEMPTS {
        RetryAction::GiveUp
    } else {
        RetryAction::Retry
    }
}

/// The decision that ends a run of attempts with the given outcomes, when
/// `failed` attempts failed before them; `Retry` where the outcomes run out
/// before a decision.
pub open spec fn run_attempts(failed: nat, outcomes: Seq<bool>) -> RetryAction
    decreases outcomes.len(),
{
    if outcomes.len() == 0 {
        RetryAction::Retry
    } else {
        let action = retry_action(failed, outcomes[0]);
        if action == RetryAction::Retry {
            run_attempts(failed + 1, outcomes.drop_first())
        } else {
            action
        }
    }
}

/// Counts the failed attempts to reach the store and decides when to stop.
pub struct ConnectionAttempts {
    failed: usize,
}

impl ConnectionAttempts {
    /// The number of attempts that failed so far.
    pub closed spec fn failed(&self) -> nat {
        self.failed as nat
    }

    /// No attempt made yet.
    pub fn new() -> (attempts: Self)
        ensures
            attempts.failed() == 0,
    {
        ConnectionAttempts { failed: 0 }
    }

    /// Records the outcome of an attempt and decides what comes next.
    pub fn on_attempt(&mut self, connected: bool) -> (action: RetryAction)
        requires
            old(self).failed() < MAX_CONNECTION_ATTEMPTS,
        ensures
            action == retry_action(old(self).failed(), connected),
            final(self).failed() == if connected {
                old(self).failed()
            } else {
                old(self).failed() + 1
            },
    {
        if connected {
            RetryAction::Connected
        } else {
            self.failed = self.failed + 1;
            if self.failed >= MAX_CONNECTION_ATTEMPTS {
                RetryAction::GiveUp
            } else {
                RetryAction::Retry
            }
        }
    }
}

/// Starting from `failed` failures, at most `MAX_CONNECTION_ATTEMPTS - failed`
/// further attempts are made: the decision depends on no later outcome. It
/// is `Connected` exactly when one of those attempts connects, and `GiveUp`
/// exactly when all of them fail.
pub proof fn lemma_bounded_attempts(failed: nat, outcomes: Seq<bool>)
    requires
        failed < MAX_CONNECTION_ATTEMPTS,
    ensures
        ({
            let budget = (MAX_CONNECTION_ATTEMPTS - failed) as int;
            &&& outcomes.len() >= budget ==> run_attempts(failed, outcomes) == run_attempts(
                failed,
                outcomes.take(budget),
            )
            &&& run_attempts(failed, outcomes) == RetryAction::Connected <==> exists|i: int|
                0 <= i < budget && i < outcomes.len() && #[trigger] outcomes[i]
            &&& run_attempts(failed, outcomes) == RetryAction::GiveUp <==> (outcomes.len()
                >= budget && forall|i: int| 0 <= i < budget ==> !#[trigger] outcomes[i])
        }),
    decreases outcomes.len(),
{
    let budget = (MAX_CONNECTION_ATTEMPTS - failed) as int;
    if outcomes.len() > 0 {
        let rest = outcomes.drop_first();
        if !outcomes[0] && failed + 1 < MAX_CONNECTION_ATTEMPTS {
            lemma_bounded_attempts(failed + 1, rest);
            if outcomes.len() >= budget {
                assert(outcomes.take(budget).drop_first() == rest.take(budget - 1));
                assert(outcomes.take(budget)[0] == outcomes[0]);
            }
            assert forall|i: int| 0 <= i < budget - 1 && i < rest.len() implies #[trigger] rest[i]
                == outcomes[i + 1] by {
            }
            if exists|i: int| 0 <= i < budget && i < outcomes.len() && #[trigger] outcomes[i] {
                let i = choose|i: int| 0 <= i < budget && i < outcomes.len() && #[trigger] outcomes[i];
                assert(rest[i - 1]);
            }
            if exists|i: int| 0 <= i < budget - 1 && i < rest.len() && #[trigger] rest[i] {
                let i = choose|i: int| 0 <= i < budget - 1 && i < rest.len() && #[trigger] rest[i];
                assert(outcomes[i + 1]);
            }
            if outcomes.len() >= budget && (forall|i: int| 0 <= i < budget ==> !#[trigger] outcomes[i]) {
                assert forall|i: int| 0 <= i < budget - 1 implies !#[trigger] rest[i] by {
                    assert(!outcomes[i + 1]);
                }
            }
            if rest.len() >= budget - 1 && (forall|i: int| 0 <= i < budget - 1 ==> !#[trigger] rest[i]) {
                assert forall|i: int| 0 <= i < budget implies !#[trigger] outcomes[i] by {
                    if i > 0 {
                        assert(!rest[i - 1]);
                    }
                }
            }
        } else {
            if outcomes.len() >= budget {
                assert(outcomes.take(budget)[0] == outcomes[0]);
            }
            if !outcomes[0] {
                assert(budget == 1);
                if exists|i: int| 0 <= i < budget && i < outcomes.len() && #[trigger] outcomes[i] {
                    let i = choose|i: int| 0 <= i < budget && i < outcomes.len() && #[trigger] outcomes[i];
                    assert(i == 0);
                }
            }
        }
    }
}

} // verus!
