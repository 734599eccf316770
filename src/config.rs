//! The bot's configuration: its identity, its token, and the channel that
//! each kind of log line goes to.
use vstd::prelude::*;
use serenity::utils::token::InvalidToken;
use crate::event::LogType;

verus! {

#[verifier::external_type_specification]
#[verifier::external_body]
pub struct ExInvalidToken(InvalidToken);

/// Whether a text has the shape of a chat-platform bot token.
pub uninterp spec fn token_accepted(s: Seq<char>) -> bool;

/// No character of `s` strictly between positions `a` and `b` is a `.`.
pub open spec fn dot_free(s: Seq<char>, a: int, b: int) -> bool {
    forall|k: int| a < k < b ==> s[k] != '.'
}

/// The part of `s` between its first `.` and the next `.` (or the end)
/// holds at most ten characters.
pub open spec fn timestamp_part_fits(s: Seq<char>) -> bool {
    forall|i: int, j: int|
        #![trigger dot_free(s, -1, i), dot_free(s, i, j)]
        0 <= i < j <= s.len() && s[i] == '.' && dot_free(s, -1, i) && dot_free(s, i, j) ==> j - i
            - 1 <= 10
}

/// Relies on `serenity::utils::validate_token`, which checks that a token
/// has three `.`-separated base64 parts of the expected contents; an empty
/// text is refused. It sums the decoded bytes of the second part into an
/// `i64`, which can overflow (and panic) once that part exceeds ten
/// characters, so such texts are not handed to it.
#[verifier::external_body]
fn check_token(s: &String) -> (r: Result<(), InvalidToken>)
    requires
        timestamp_part_fits(s@),
    ensures
        r.is_ok() == token_accepted(s@),
        s@.len() == 0 ==> r.is_err(),
{
    serenity::utils::validate_token(s)
}

/// The identifier of the game server the bot serves.
#[derive(Clone, Debug, PartialEq, Eq)]
pub struct BotId(pub String);

/// A bot token whose shape was checked.
#[derive(Clone, Debug)]
pub struct Token(String);

/// The text was not a bot token.
#[derive(Clone, Copy, Debug, PartialEq, Eq, Structural)]
pub struct TokenError;

impl Token {
    /// Checks the shape of `value` and wraps it as a token.
    pub fn try_from(value: String) -> (r: Result<Token, TokenError>)
        requires
            timestamp_part_fits(value@),
        ensures
            r.is_ok() == token_accepted(value@),
            r.is_ok() ==> r.unwrap()@ == value@,
    {
        let check = check_token(&value);
        Token::from_check(value, check)
    }

    /// Wraps `value` as a token when its check succeeded.
    pub fn from_check(value: String, check: Result<(), InvalidToken>) -> (r: Result<Token, TokenError>)
        ensures
            r.is_ok() == check.is_ok(),
            r.is_ok() ==> r.unwrap()@ == value@,
    {
        match check {
            Ok(()) => Ok(Token(value)),
            Err(_) => Err(TokenError),
        }
    }

    /// The token's text.
    pub fn as_str(&self) -> (r: &str)
        ensures
            r@ == self@,
    {
        self.0.as_str()
    }
}

impl View for Token {
    type V = Seq<char>;

    closed spec fn view(&self) -> Seq<char> {
        self.0@
    }
}

/// The position of a log type in tables kept per log type.
pub open spec fn log_index(t: LogType) -> int {
    match t {
        LogType::Command => 0,
        LogType::GameEvent => 1,
        LogType::GameEventSensitive => 2,
        LogType::Ban => 3,
        LogType::Report => 4,
        LogType::Disconnect => 5,
    }
}

/// Number of log types.
pub const LOG_TYPES: usize = 6;

/// The position of `t` in tables kept per log type.
pub fn log_slot(t: LogType) -> (r: usize)
    ensures
        r == log_index(t),
        r < LOG_TYPES,
{
    match t {
        LogType::Command => 0,
        LogType::GameEvent => 1,
        LogType::GameEventSensitive => 2,
        LogType::Ban => 3,
        LogType::Report => 4,
        LogType::Disconnect => 5,
    }
}

/// For each log type, the chat channel its lines are posted to, if any.
#[derive(Clone, Debug)]
pub struct ChannelMap {
    slots: Vec<Option<u64>>,
}

impl View for ChannelMap {
    type V = Seq<Option<u64>>;

    closed spec fn view(&self) -> Seq<Option<u64>> {
        self.slots@
    }
}

impl ChannelMap {
    pub open spec fn wf(&self) -> bool {
        self@.len() == LOG_TYPES
    }

    /// A map in which no log type has a channel.
    pub fn new() -> (r: ChannelMap)
        ensures
            r.wf(),
            forall|i: int| 0 <= i < LOG_TYPES ==> r@[i].is_none(),
    {
        let mut slots: Vec<Option<u64>> = Vec::new();
        let mut i: usize = 0;
        while i < LOG_TYPES
            invariant
                i <= LOG_TYPES,
                slots@.len() == i,
                forall|k: int| 0 <= k < i ==> slots@[k].is_none(),
            decreases LOG_TYPES - i,
        {
            slots.push(None);
            i = i + 1;
        }
        ChannelMap { slots }
    }

    /// The channel of log type `t`.
    pub fn get(&self, t: LogType) -> (r: Option<u64>)
        requires
            self.wf(),
        ensures
            r == self@[log_index(t)],
    {
        self.slots[log_slot(t)]
    }

    /// Sets the channel of log type `t`; the other log types keep theirs.
    pub fn set(&mut self, t: LogType, channel: Option<u64>)
        requires
            old(self).wf(),
        ensures
            final(self).wf(),
            final(self)@ == old(self)@.update(log_index(t), channel),
    {
        let i = log_slot(t);
        self.slots.set(i, channel);
    }
}

/// What the bot is configured with.
#[derive(Clone, Debug)]
pub struct BotConfig {
    pub server_id: BotId,
    pub channels: ChannelMap,
    pub token: Token,
}

} // verus!
