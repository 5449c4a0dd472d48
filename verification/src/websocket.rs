//! The decisions of a WebSocket connection that reconnects on failure:
//! when to give up, how long to back off, and what each incoming message
//! calls for.
use vstd::prelude::*;
use vstd::string::StringExecFns;
use vstd::utf8::{valid_utf8, decode_utf8};

verus! {

#[derive(Debug)]
pub enum WebSocketError {
    ConnectionFailed(String),
    ConnectionClosed,
    SendFailed(String),
    ReceiveFailed(String),
    MaxReconnectAttemptsReached,
    ParseError(String),
}

/// `base` doubled `n` times.
pub open spec fn doubled(base: int, n: nat) -> int
    decreases n,
{
    if n == 0 {
        base
    } else {
        2 * doubled(base, (n - 1) as nat)
    }
}

proof fn lemma_doubled_nonneg(base: int, n: nat)
    requires
        base >= 0,
    ensures
        doubled(base, n) >= 0,
    decreases n,
{
    if n > 0 {
        lemma_doubled_nonneg(base, (n - 1) as nat);
    }
}

proof fn lemma_doubled_monotone(base: int, a: nat, b: nat)
    requires
        base >= 0,
        a <= b,
    ensures
        0 <= doubled(base, a) <= doubled(base, b),
    decreases b,
{
    lemma_doubled_nonneg(base, b);
    if a < b {
        lemma_doubled_monotone(base, a, (b - 1) as nat);
    }
}

/// The `attempt`-th backoff (counting from 0): the base doubled `attempt`
/// times, capped at the maximum.
pub open spec fn backoff_ms(base: u64, max: u64, attempt: u32) -> int {
    let b = doubled(base as int, attempt as nat);
    if b <= max {
        b
    } else {
        max as int
    }
}

/// The backoff never exceeds the maximum, and never shrinks from one
/// attempt to a later one.
pub proof fn lemma_backoff_bounded(base: u64, max: u64, a: u32, b: u32)
    requires
        a <= b,
    ensures
        backoff_ms(base, max, a) <= backoff_ms(base, max, b),
        backoff_ms(base, max, b) <= max,
{
    lemma_doubled_monotone(base as int, a as nat, b as nat);
}

/// What to do before the next connection.
#[derive(Debug, PartialEq, Eq, Structural)]
pub enum ConnectStep {
    /// Too many attempts: stop with `MaxReconnectAttemptsReached`.
    GiveUp,
    /// Connect at once.
    Connect,
    /// Wait this many milliseconds, then connect.
    WaitThenConnect(u64),
}

/// WebSocket connection manager with automatic reconnection
pub struct WebSocketManager {
    url: String,
    reconnect_attempts: u32,
    max_reconnect_attempts: u32,
    base_backoff_ms: u64,
    max_backoff_ms: u64,
    is_connected: bool,
}

impl WebSocketManager {
    /// The backoff of every allowed attempt fits.
    #[verifier::type_invariant]
    spec fn inv(self) -> bool {
        &&& self.max_reconnect_attempts <= 63
        &&& doubled(self.base_backoff_ms as int, self.max_reconnect_attempts as nat) <= u64::MAX
    }

    pub closed spec fn spec_url(&self) -> Seq<char> {
        self.url@
    }

    pub closed spec fn spec_attempts(&self) -> u32 {
        self.reconnect_attempts
    }

    pub closed spec fn spec_max_attempts(&self) -> u32 {
        self.max_reconnect_attempts
    }

    pub closed spec fn spec_base_backoff_ms(&self) -> u64 {
        self.base_backoff_ms
    }

    pub closed spec fn spec_max_backoff_ms(&self) -> u64 {
        self.max_backoff_ms
    }

    pub closed spec fn spec_connected(&self) -> bool {
        self.is_connected
    }

    /// Ten attempts, backing off from one second up to a minute.
    pub fn new(url: String) -> (r: WebSocketManager)
        ensures
            r.spec_url() == url@,
            r.spec_attempts() == 0,
            r.spec_max_attempts() == 10,
            r.spec_base_backoff_ms() == 1000,
            r.spec_max_backoff_ms() == 60000,
            !r.spec_connected(),
    {
        proof {
            reveal_with_fuel(doubled, 11);
        }
        WebSocketManager {
            url,
            reconnect_attempts: 0,
            max_reconnect_attempts: 10,
            base_backoff_ms: 1000,
            max_backoff_ms: 60000,
            is_connected: false,
        }
    }

    /// Five attempts, backing off from half a second up to thirty seconds.
    pub fn institutional(url: String) -> (r: WebSocketManager)
        ensures
            r.spec_url() == url@,
            r.spec_attempts() == 0,
            r.spec_max_attempts() == 5,
            r.spec_base_backoff_ms() == 500,
            r.spec_max_backoff_ms() == 30000,
            !r.spec_connected(),
    {
        proof {
            reveal_with_fuel(doubled, 6);
        }
        WebSocketManager {
            url,
            reconnect_attempts: 0,
            max_reconnect_attempts: 5,
            base_backoff_ms: 500,
            max_backoff_ms: 30000,
            is_connected: false,
        }
    }

    pub fn url(&self) -> (r: &str)
        ensures
            r@ == self.spec_url(),
    {
        self.url.as_str()
    }

    /// Calculate exponential backoff duration, in milliseconds
    fn calculate_backoff(&self, attempt: u32) -> (r: u64)
        requires
            attempt < self.spec_max_attempts(),
        ensures
            r == backoff_ms(self.spec_base_backoff_ms(), self.spec_max_backoff_ms(), attempt),
    {
        proof {
            use_type_invariant(self);
            lemma_doubled_monotone(
                self.base_backoff_ms as int,
                attempt as nat,
                self.max_reconnect_attempts as nat,
            );
        }
        let mut b: u64 = self.base_backoff_ms;
        let mut k: u32 = 0;
        while k < attempt
            invariant
                0 <= k <= attempt,
                b == doubled(self.base_backoff_ms as int, k as nat),
                doubled(self.base_backoff_ms as int, attempt as nat) <= u64::MAX,
            decreases attempt - k,
        {
            proof {
                lemma_doubled_monotone(self.base_backoff_ms as int, (k + 1) as nat, attempt as nat);
            }
            b = b * 2;
            k = k + 1;
        }
        if b <= self.max_backoff_ms {
            b
        } else {
            self.max_backoff_ms
        }
    }

    /// What to do before the next connection: give up once the attempts
    /// reach the maximum; after `k` failed attempts, wait the base backoff
    /// doubled `k - 1` times (capped) first, so the waits before attempts
    /// 2, 3, 4, ... are the base, twice the base, four times the base, ...
    pub fn next_step(&self) -> (r: ConnectStep)
        ensures
            r == if self.spec_attempts() >= self.spec_max_attempts() {
                ConnectStep::GiveUp
            } else if self.spec_attempts() > 0 {
                ConnectStep::WaitThenConnect(
                    backoff_ms(
                        self.spec_base_backoff_ms(),
                        self.spec_max_backoff_ms(),
                        (self.spec_attempts() - 1) as u32,
                    ) as u64,
                )
            } else {
                ConnectStep::Connect
            },
    {
        let attempts = self.reconnect_attempts;
        if attempts >= self.max_reconnect_attempts {
            return ConnectStep::GiveUp;
        }
        if attempts > 0 {
            return ConnectStep::WaitThenConnect(self.calculate_backoff(attempts - 1));
        }
        ConnectStep::Connect
    }

    /// A connection succeeded: the attempts start over.
    pub fn connection_succeeded(&mut self)
        ensures
            final(self).spec_attempts() == 0,
            final(self).spec_connected(),
            final(self).spec_url() == old(self).spec_url(),
            final(self).spec_max_attempts() == old(self).spec_max_attempts(),
            final(self).spec_base_backoff_ms() == old(self).spec_base_backoff_ms(),
            final(self).spec_max_backoff_ms() == old(self).spec_max_backoff_ms(),
    {
        proof {
            use_type_invariant(&*self);
        }
        self.reconnect_attempts = 0;
        self.is_connected = true;
    }

    /// A connection failed: one more attempt is counted.
    pub fn connection_failed(&mut self)
        requires
            old(self).spec_attempts() < u32::MAX,
        ensures
            final(self).spec_attempts() == old(self).spec_attempts() + 1,
            !final(self).spec_connected(),
            final(self).spec_url() == old(self).spec_url(),
            final(self).spec_max_attempts() == old(self).spec_max_attempts(),
            final(self).spec_base_backoff_ms() == old(self).spec_base_backoff_ms(),
            final(self).spec_max_backoff_ms() == old(self).spec_max_backoff_ms(),
    {
        proof {
            use_type_invariant(&*self);
        }
        self.is_connected = false;
        self.reconnect_attempts = self.reconnect_attempts + 1;
    }

    pub fn is_connected(&self) -> (r: bool)
        ensures
            r == self.spec_connected(),
    {
        self.is_connected
    }

    pub fn reset_reconnect_counter(&mut self)
        ensures
            final(self).spec_attempts() == 0,
            final(self).spec_connected() == old(self).spec_connected(),
            final(self).spec_url() == old(self).spec_url(),
            final(self).spec_max_attempts() == old(self).spec_max_attempts(),
            final(self).spec_base_backoff_ms() == old(self).spec_base_backoff_ms(),
            final(self).spec_max_backoff_ms() == old(self).spec_max_backoff_ms(),
    {
        proof {
            use_type_invariant(&*self);
        }
        self.reconnect_attempts = 0;
    }
}

/// A message received on the connection.
#[derive(Debug)]
pub enum Incoming {
    Text(String),
    Binary(Vec<u8>),
    Ping(Vec<u8>),
    Pong(Vec<u8>),
    Close,
    /// The connection reported an error, with its text.
    Failure(String),
    /// A raw frame.
    Other,
}

/// What a received message calls for.
#[derive(Debug)]
pub enum MessageAction {
    /// Hand the text to the message handler.
    Deliver(String),
    /// Answer with a pong carrying these bytes.
    Reply(Vec<u8>),
    /// Nothing to do.
    Ignore,
    /// End the connection with this error.
    Stop(WebSocketError),
}

/// `String::from_utf8`: the text the bytes encode, or `None` where they are
/// not valid UTF-8.
#[verifier::external_body]
fn text_from_utf8(bytes: Vec<u8>) -> (r: Option<String>)
    ensures
        match r {
            Some(s) => valid_utf8(bytes@) && s@ == decode_utf8(bytes@),
            None => !valid_utf8(bytes@),
        },
{
    String::from_utf8(bytes).ok()
}

/// What a received message calls for: text goes to the handler, and binary
/// data too when it is valid UTF-8; a ping is answered with its data; a
/// close ends the connection as closed, an error as a receive failure;
/// anything else is ignored.
pub fn incoming_action(msg: Incoming) -> (r: MessageAction)
    ensures
        match msg {
            Incoming::Text(t) => r == MessageAction::Deliver(t),
            Incoming::Binary(b) => if valid_utf8(b@) {
                r matches MessageAction::Deliver(s) && s@ == decode_utf8(b@)
            } else {
                r is Ignore
            },
            Incoming::Ping(d) => r == MessageAction::Reply(d),
            Incoming::Pong(_) => r is Ignore,
            Incoming::Close => r matches MessageAction::Stop(WebSocketError::ConnectionClosed),
            Incoming::Failure(e) => r == MessageAction::Stop(WebSocketError::ReceiveFailed(e)),
            Incoming::Other => r is Ignore,
        },
{
    match msg {
        Incoming::Text(t) => MessageAction::Deliver(t),
        Incoming::Binary(b) => match text_from_utf8(b) {
            Some(t) => MessageAction::Deliver(t),
            None => MessageAction::Ignore,
        },
        Incoming::Ping(d) => MessageAction::Reply(d),
        Incoming::Pong(_) => MessageAction::Ignore,
        Incoming::Close => MessageAction::Stop(WebSocketError::ConnectionClosed),
        Incoming::Failure(e) => MessageAction::Stop(WebSocketError::ReceiveFailed(e)),
        Incoming::Other => MessageAction::Ignore,
    }
}

} // verus!
