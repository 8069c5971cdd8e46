//! Distributed quotas: what is asked of the shared store, and what its answers
//! mean.
use crate::crypto::{fresh_uuid, uuid_text};
use crate::gateway::auth::Principal;
use crate::gateway::{minute_of, minute_value};
use crate::text::{decimal, int_text, join};
use vstd::prelude::*;

verus! {

#[derive(Clone, Copy, Debug, PartialEq, Eq, Structural)]
pub enum QuotaDenial {
    RequestsPerMinute,
    TokensPerMinute,
}

#[derive(Clone, Debug)]
pub struct QuotaReservation {
    pub key: String,
    pub id: String,
    pub reserved_tokens: u64,
}

#[derive(Debug)]
pub enum QuotaDecision {
    Allowed(QuotaReservation),
    Denied(QuotaDenial),
}

#[derive(Debug)]
pub enum QuotaError {
    Unavailable,
    Timeout,
    Redis(String),
}

impl QuotaError {
    /// The error as it is shown.
    pub fn message(&self) -> (r: String)
        ensures
            r@ == match self {
                QuotaError::Unavailable => "Redis quota worker is unavailable"@,
                QuotaError::Timeout => "Redis quota operation timed out"@,
                QuotaError::Redis(cause) => "Redis quota operation failed: "@ + cause@,
            },
    {
        match self {
            QuotaError::Unavailable => "Redis quota worker is unavailable".to_owned(),
            QuotaError::Timeout => "Redis quota operation timed out".to_owned(),
            QuotaError::Redis(cause) => join("Redis quota operation failed: ", cause.as_str()),
        }
    }
}

/// What the shared store runs to take one request and its tokens from the quota
/// of a key. It carries out one script at a time.
pub const RESERVE: &'static str = r"-- Takes one request and its tokens from the quota of a key in this minute.
local field = 'r:' .. ARGV[4]
local prior = redis.call('HGET', KEYS[1], field)
if prior then
  if prior ~= ARGV[3] then return redis.error_reply('reservation payload conflict') end
  return {1, 0}
end
if tonumber(redis.call('TIME')[1]) >= tonumber(ARGV[5]) then
  return redis.error_reply('quota window expired')
end
local requests = tonumber(redis.call('HGET', KEYS[1], 'requests') or '0')
local tokens = tonumber(redis.call('HGET', KEYS[1], 'tokens') or '0')
local requested = tonumber(ARGV[3])
if requests + 1 > tonumber(ARGV[1]) then return {0, 1, requests, tokens} end
if tokens + requested > tonumber(ARGV[2]) then return {0, 2, requests, tokens} end
requests = redis.call('HINCRBY', KEYS[1], 'requests', 1)
tokens = redis.call('HINCRBY', KEYS[1], 'tokens', requested)
redis.call('HSET', KEYS[1], field, ARGV[3])
redis.call('EXPIREAT', KEYS[1], ARGV[5])
return {1, 0, requests, tokens}
";

/// What the shared store runs to put the tokens that were used in place of those
/// that were reserved.
pub const SETTLE: &'static str = r"-- Puts the tokens that were used in place of those that were reserved.
if redis.call('EXISTS', KEYS[1]) == 0 then return 0 end
local reserved = redis.call('HGET', KEYS[1], 'r:' .. ARGV[3])
if not reserved or reserved ~= ARGV[1] then
  return redis.error_reply('unknown or conflicting reservation')
end
local prior = redis.call('HGET', KEYS[1], 's:' .. ARGV[3])
if prior then
  if prior ~= ARGV[2] then return redis.error_reply('settlement payload conflict') end
  return 0
end
local tokens = tonumber(redis.call('HGET', KEYS[1], 'tokens') or '0')
tokens = math.max(0, tokens - tonumber(reserved) + tonumber(ARGV[2]))
redis.call('HSET', KEYS[1], 'tokens', tokens)
redis.call('HSET', KEYS[1], 's:' .. ARGV[3], ARGV[2])
return tokens
";

/// What the worker of the shared store is asked.
#[derive(Debug)]
pub enum Command {
    Reserve { key: String, id: String, expires_at: i64, rpm: u64, tpm: u64, tokens: u64 },
    Settle { reservation: QuotaReservation, actual_tokens: u64 },
}

/// What the shared store is to run for a command.
pub fn script(command: &Command) -> (r: &'static str)
    ensures
        r@ == match *command {
            Command::Reserve { .. } => RESERVE@,
            Command::Settle { .. } => SETTLE@,
        },
{
    match command {
        Command::Reserve { .. } => RESERVE,
        Command::Settle { .. } => SETTLE,
    }
}

#[derive(Debug)]
pub enum CommandResult {
    Reserved(QuotaDecision),
    Settled,
}

/// The key of the window of an API key in a minute. The braces keep every
/// window of an API key on one shard.
pub open spec fn window_key(api_key: Seq<char>, minute: int) -> Seq<char> {
    "xscope:quota:{"@ + api_key + "}:"@ + int_text(minute)
}

/// The reservation of one request and its tokens at a second since the Unix
/// epoch. The identifier is the same across retries.
pub fn reserve_command_with(
    principal: &Principal,
    requested_tokens: u64,
    timestamp: i64,
    id: String,
) -> (r: Command)
    requires
        timestamp + 120 <= i64::MAX,
    ensures
        ({
            let minute = minute_value(timestamp as int);
            &&& r is Reserve
            &&& r->key@ == window_key(principal.api_key_id@, minute)
            &&& r->id == id
            &&& r->expires_at == (minute + 2) * 60
            &&& r->rpm == principal.rate_limit_rpm
            &&& r->tpm == principal.rate_limit_tpm
            &&& r->tokens == requested_tokens
        }),
{
    let minute: i64 = minute_of(timestamp);
    let mut key = join("xscope:quota:{", principal.api_key_id.as_str());
    key.append("}:");
    key.append(decimal(minute).as_str());
    Command::Reserve {
        key,
        id,
        expires_at: (minute + 2) * 60,
        rpm: principal.rate_limit_rpm(),
        tpm: principal.rate_limit_tpm(),
        tokens: requested_tokens,
    }
}

/// The reservation of one request and its tokens, under a fresh identifier.
pub fn reserve_command(principal: &Principal, requested_tokens: u64, timestamp: i64) -> (r: Command)
    requires
        timestamp + 120 <= i64::MAX,
    ensures
        ({
            let minute = minute_value(timestamp as int);
            &&& r is Reserve
            &&& r->key@ == window_key(principal.api_key_id@, minute)
            &&& uuid_text(r->id@)
            &&& r->expires_at == (minute + 2) * 60
            &&& r->rpm == principal.rate_limit_rpm
            &&& r->tpm == principal.rate_limit_tpm
            &&& r->tokens == requested_tokens
        }),
{
    reserve_command_with(principal, requested_tokens, timestamp, fresh_uuid())
}

/// What the answer of the store to a reservation decides: a one allows it, a
/// zero denies it for the reason that follows. Anything else is no answer.
pub open spec fn decision_of(answer: Seq<i64>) -> Option<Option<QuotaDenial>> {
    if answer.len() > 0 && answer[0] == 1 {
        Some(None)
    } else if answer.len() > 1 && answer[0] == 0 && answer[1] == 1 {
        Some(Some(QuotaDenial::RequestsPerMinute))
    } else if answer.len() > 1 && answer[0] == 0 && answer[1] == 2 {
        Some(Some(QuotaDenial::TokensPerMinute))
    } else {
        None
    }
}

/// What the store answered to a command: the numbers of a script, or why it
/// failed.
pub enum Answer {
    Numbers(Vec<i64>),
    Failed(String),
}

/// Reads the answer of the store to a command.
pub fn execute(command: &Command, answer: Answer) -> (r: Result<CommandResult, QuotaError>)
    ensures
        match (answer, *command) {
            (Answer::Failed(cause), _) => r matches Err(QuotaError::Redis(text)) && text@ == cause@,
            (Answer::Numbers(_), Command::Settle { .. }) => r matches Ok(CommandResult::Settled),
            (Answer::Numbers(numbers), Command::Reserve { key, id, tokens, .. }) => match decision_of(
                numbers@,
            ) {
                Some(None) => r matches Ok(CommandResult::Reserved(QuotaDecision::Allowed(taken)))
                    && taken == (QuotaReservation { key, id, reserved_tokens: tokens }),
                Some(Some(denial)) => r matches Ok(
                    CommandResult::Reserved(QuotaDecision::Denied(why)),
                ) && why == denial,
                None => r matches Err(QuotaError::Redis(text)) && text@
                    == "unexpected Redis script response"@,
            },
        },
{
    let numbers = match answer {
        Answer::Numbers(numbers) => numbers,
        Answer::Failed(cause) => return Err(QuotaError::Redis(cause)),
    };
    match command {
        Command::Settle { .. } => Ok(CommandResult::Settled),
        Command::Reserve { key, id, tokens, .. } => {
            if numbers.len() > 0 && numbers[0] == 1 {
                Ok(
                    CommandResult::Reserved(
                        QuotaDecision::Allowed(
                            QuotaReservation {
                                key: key.clone(),
                                id: id.clone(),
                                reserved_tokens: *tokens,
                            },
                        ),
                    ),
                )
            } else if numbers.len() > 1 && numbers[0] == 0 && numbers[1] == 1 {
                Ok(CommandResult::Reserved(QuotaDecision::Denied(QuotaDenial::RequestsPerMinute)))
            } else if numbers.len() > 1 && numbers[0] == 0 && numbers[1] == 2 {
                Ok(CommandResult::Reserved(QuotaDecision::Denied(QuotaDenial::TokensPerMinute)))
            } else {
                Err(QuotaError::Redis("unexpected Redis script response".to_owned()))
            }
        },
    }
}

/// Whether a command is tried (again): at most twice, not once it succeeded, and
/// not once its caller is gone. A retry carries the same identifier, so that a
/// lost reply neither reserves nor settles twice.
pub fn another_attempt(tried: u32, succeeded: bool, cancelled: bool) -> (r: bool)
    ensures
        r == (tried < 2 && !succeeded && !cancelled),
{
    tried < 2 && !succeeded && !cancelled
}

/// What the caller of a reservation is told.
pub fn reserve_reply(result: Result<CommandResult, QuotaError>) -> (r: Result<
    QuotaDecision,
    QuotaError,
>)
    ensures
        match result {
            Ok(CommandResult::Reserved(decision)) => r == Ok::<QuotaDecision, QuotaError>(decision),
            Ok(CommandResult::Settled) => r == Err::<QuotaDecision, QuotaError>(
                QuotaError::Unavailable,
            ),
            Err(error) => r == Err::<QuotaDecision, QuotaError>(error),
        },
{
    match result {
        Ok(CommandResult::Reserved(decision)) => Ok(decision),
        Ok(CommandResult::Settled) => Err(QuotaError::Unavailable),
        Err(error) => Err(error),
    }
}

/// What the caller of a settlement is told.
pub fn settle_reply(result: Result<CommandResult, QuotaError>) -> (r: Result<(), QuotaError>)
    ensures
        match result {
            Ok(CommandResult::Settled) => r == Ok::<(), QuotaError>(()),
            Ok(CommandResult::Reserved(_)) => r == Err::<(), QuotaError>(QuotaError::Unavailable),
            Err(error) => r == Err::<(), QuotaError>(error),
        },
{
    match result {
        Ok(CommandResult::Settled) => Ok(()),
        Ok(CommandResult::Reserved(_)) => Err(QuotaError::Unavailable),
        Err(error) => Err(error),
    }
}

/// How the wait for the worker ended: with its reply, without one, or with the
/// deadline.
pub enum Wait<T> {
    Replied(Result<T, QuotaError>),
    Closed,
    Expired,
}

/// What a wait for the worker comes to.
pub fn awaited<T>(wait: Wait<T>) -> (r: Result<T, QuotaError>)
    ensures
        match wait {
            Wait::Replied(result) => r == result,
            Wait::Closed => r == Err::<T, QuotaError>(QuotaError::Unavailable),
            Wait::Expired => r == Err::<T, QuotaError>(QuotaError::Timeout),
        },
{
    match wait {
        Wait::Replied(result) => result,
        Wait::Closed => Err(QuotaError::Unavailable),
        Wait::Expired => Err(QuotaError::Timeout),
    }
}

/// The worker did not take a command: its queue is full, or it is gone.
pub fn map_send_error() -> (r: QuotaError)
    ensures
        r is Unavailable,
{
    QuotaError::Unavailable
}

/// The answer of the shared store allows a request exactly if it starts with one, and names
/// which limit was met otherwise; anything else is no decision.
pub proof fn law_quota_answers_are_read_exactly(answer: Seq<i64>)
    ensures
        decision_of(answer) == Some(None::<QuotaDenial>) <==> answer.len() > 0 && answer[0] == 1,
        decision_of(answer) == Some(Some(QuotaDenial::RequestsPerMinute)) <==> answer.len() > 1
            && answer[0] == 0 && answer[1] == 1,
        decision_of(answer) == Some(Some(QuotaDenial::TokensPerMinute)) <==> answer.len() > 1
            && answer[0] == 0 && answer[1] == 2,
        answer.len() == 0 ==> decision_of(answer) is None,
{
}

} // verus!
