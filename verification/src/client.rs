//! Decisions of the protocol client: how a failure is classified, when a
//! request is sent once more with a fresh nonce, and how long to wait
//! between two polls of an authorization.
//!
//! Nothing here talks to a server. The caller sends and receives, and asks
//! after each reply what to do next.

use vstd::prelude::*;
use crate::backoff::delay;
use crate::backoff::delay_spec;
use crate::lifecycle::ErrorClass;
use crate::text::same_text;

verus! {

/// A request that did not get a usable answer.
#[derive(Clone, Copy, Debug, PartialEq, Eq)]
pub enum NetworkFailure {
    ConnectionReset,
    Timeout,
    /// The server answered with this HTTP status.
    Status(u16),
    /// The answer could not be read.
    Malformed,
}

/// A name that could not be resolved.
#[derive(Clone, Copy, Debug, PartialEq, Eq)]
pub enum ResolveFailure {
    /// The name is known not to exist.
    NoSuchName,
    ServerFailure,
    Timeout,
}

/// A challenge that could not be solved.
#[derive(Clone, Copy, Debug, PartialEq, Eq)]
pub enum SolveError {
    /// The artifact could not be provisioned.
    PrepareFailed,
    /// The artifact did not become visible in time.
    NotReady,
    /// The entry's resolver cannot publish records.
    NoWriteCapability,
    /// A lookup on the way failed.
    Resolve(ResolveFailure),
}

/// What the client reports when an exchange fails.
#[derive(Clone, Copy, Debug, PartialEq, Eq)]
pub enum AcmeError {
    /// The server refused the nonce again after a fresh one was used.
    StaleNonce,
    Network(NetworkFailure),
    /// An authorization was not valid within the time allowed for polling.
    PollTimeout,
    /// The server found an authorization invalid.
    AuthorizationInvalid,
}

impl NetworkFailure {
    /// Resets, timeouts and server errors (5xx) are transient. The status
    /// 429 is a rate limit. Every other answer is a rejection and permanent,
    /// as is an answer that cannot be read.
    pub open spec fn class(self) -> ErrorClass {
        match self {
            NetworkFailure::ConnectionReset => ErrorClass::Transient,
            NetworkFailure::Timeout => ErrorClass::Transient,
            NetworkFailure::Status(code) => if 500 <= code <= 599 {
                ErrorClass::Transient
            } else if code == 429 {
                ErrorClass::RateLimited
            } else {
                ErrorClass::Permanent
            },
            NetworkFailure::Malformed => ErrorClass::Permanent,
        }
    }

    /// Computes [`Self::class`].
    pub fn classify(&self) -> (c: ErrorClass)
        ensures
            c == self.class(),
    {
        match self {
            NetworkFailure::ConnectionReset => ErrorClass::Transient,
            NetworkFailure::Timeout => ErrorClass::Transient,
            NetworkFailure::Status(code) => {
                if *code >= 500 && *code <= 599 {
                    ErrorClass::Transient
                } else if *code == 429 {
                    ErrorClass::RateLimited
                } else {
                    ErrorClass::Permanent
                }
            },
            NetworkFailure::Malformed => ErrorClass::Permanent,
        }
    }
}

impl ResolveFailure {
    /// A name that does not exist will not exist a moment later either;
    /// every other failure to resolve is transient.
    pub open spec fn class(self) -> ErrorClass {
        match self {
            ResolveFailure::NoSuchName => ErrorClass::Permanent,
            _ => ErrorClass::Transient,
        }
    }

    /// Computes [`Self::class`].
    pub fn classify(&self) -> (c: ErrorClass)
        ensures
            c == self.class(),
    {
        match self {
            ResolveFailure::NoSuchName => ErrorClass::Permanent,
            _ => ErrorClass::Transient,
        }
    }
}

impl SolveError {
    /// A missing write capability is a fault of the setup and permanent. A
    /// failed lookup counts as the lookup does. The rest is transient.
    pub open spec fn class(self) -> ErrorClass {
        match self {
            SolveError::NoWriteCapability => ErrorClass::Permanent,
            SolveError::Resolve(f) => f.class(),
            _ => ErrorClass::Transient,
        }
    }

    /// Computes [`Self::class`].
    pub fn classify(&self) -> (c: ErrorClass)
        ensures
            c == self.class(),
    {
        match self {
            SolveError::NoWriteCapability => ErrorClass::Permanent,
            SolveError::Resolve(f) => f.classify(),
            _ => ErrorClass::Transient,
        }
    }
}

impl AcmeError {
    /// A refused nonce is a rejection by the server (status 400) and an
    /// invalid authorization is one too; a poll that ran out of time is
    /// a matter of timing.
    pub open spec fn class(self) -> ErrorClass {
        match self {
            AcmeError::StaleNonce => ErrorClass::Permanent,
            AcmeError::Network(f) => f.class(),
            AcmeError::PollTimeout => ErrorClass::Transient,
            AcmeError::AuthorizationInvalid => ErrorClass::Permanent,
        }
    }

    /// Computes [`Self::class`].
    pub fn classify(&self) -> (c: ErrorClass)
        ensures
            c == self.class(),
    {
        match self {
            AcmeError::StaleNonce => ErrorClass::Permanent,
            AcmeError::Network(f) => f.classify(),
            AcmeError::PollTimeout => ErrorClass::Transient,
            AcmeError::AuthorizationInvalid => ErrorClass::Permanent,
        }
    }
}

/// The nonce that rows hold for a server: that of the first row of the
/// server's name.
pub open spec fn held_in(rows: Seq<(String, Option<String>)>, server: Seq<char>) -> Option<String>
    decreases rows.len(),
{
    if rows.len() == 0 {
        None
    } else if rows[0].0@ == server {
        rows[0].1
    } else {
        held_in(rows.drop_first(), server)
    }
}

/// The replay nonces, one for each server. A nonce is used once.
pub struct NonceBook {
    rows: Vec<(String, Option<String>)>,
}

impl NonceBook {
    /// The nonce held for a server, if any.
    pub closed spec fn held(self, server: Seq<char>) -> Option<String> {
        held_in(self.rows@, server)
    }

    /// A book that holds nothing.
    pub fn new() -> (book: NonceBook)
        ensures
            forall|server: Seq<char>| #[trigger] book.held(server) is None,
    {
        NonceBook { rows: Vec::new() }
    }

    /// The position of the first row of a server.
    fn find(&self, server: &str) -> (at: Option<usize>)
        ensures
            match at {
                Some(i) => {
                    &&& i < self.rows@.len()
                    &&& self.rows@[i as int].0@ == server@
                    &&& forall|j: int| 0 <= j < i ==> (#[trigger] self.rows@[j]).0@ != server@
                },
                None => forall|j: int|
                    0 <= j < self.rows@.len() ==> (#[trigger] self.rows@[j]).0@ != server@,
            },
    {
        let mut i: usize = 0;
        while i < self.rows.len()
            invariant
                i <= self.rows@.len(),
                forall|j: int| 0 <= j < i ==> (#[trigger] self.rows@[j]).0@ != server@,
            decreases self.rows@.len() - i,
        {
            if same_text(self.rows[i].0.as_str(), server) {
                return Some(i);
            }
            i = i + 1;
        }
        None
    }

    /// Sets the nonce of a server and leaves those of the others.
    fn put(&mut self, server: &str, nonce: Option<String>)
        ensures
            final(self).held(server@) == nonce,
            forall|other: Seq<char>|
                other != server@ ==> #[trigger] final(self).held(other) == old(self).held(other),
    {
        let ghost before = self.rows@;
        match self.find(server) {
            Some(i) => {
                let name = self.rows[i].0.clone();
                self.rows.set(i, (name, nonce));
                proof {
                    lemma_row_changed(before, i as int, (name, nonce));
                }
            },
            None => {
                self.rows.push((server.to_owned(), nonce));
                proof {
                    lemma_row_added(before, self.rows@[before.len() as int]);
                }
            },
        }
    }

    /// Hands out the nonce held for a server. Nothing is held for that
    /// server afterwards; the other servers keep theirs.
    pub fn take(&mut self, server: &str) -> (n: Option<String>)
        ensures
            n == old(self).held(server@),
            final(self).held(server@) is None,
            forall|other: Seq<char>|
                other != server@ ==> #[trigger] final(self).held(other) == old(self).held(other),
    {
        let held = match self.find(server) {
            Some(i) => {
                proof {
                    lemma_row_found(self.rows@, i as int, server@);
                }
                match &self.rows[i].1 {
                    Some(n) => Some(n.clone()),
                    None => None,
                }
            },
            None => {
                proof {
                    lemma_row_missing(self.rows@, server@);
                }
                None
            },
        };
        self.put(server, None);
        held
    }

    /// Takes over the nonce that a response of a server brought. A
    /// response without one changes nothing. The other servers keep
    /// theirs.
    pub fn refresh(&mut self, server: &str, fresh: Option<String>)
        ensures
            final(self).held(server@) == match fresh {
                Some(n) => Some(n),
                None => old(self).held(server@),
            },
            forall|other: Seq<char>|
                other != server@ ==> #[trigger] final(self).held(other) == old(self).held(other),
    {
        match fresh {
            Some(n) => {
                self.put(server, Some(n));
            },
            None => {},
        }
    }
}

proof fn lemma_row_found(rows: Seq<(String, Option<String>)>, i: int, server: Seq<char>)
    requires
        0 <= i < rows.len(),
        rows[i].0@ == server,
        forall|j: int| 0 <= j < i ==> (#[trigger] rows[j]).0@ != server,
    ensures
        held_in(rows, server) == rows[i].1,
    decreases i,
{
    if i > 0 {
        let rest = rows.drop_first();
        assert(rows[0].0@ != server);
        assert forall|j: int| 0 <= j < i - 1 implies (#[trigger] rest[j]).0@ != server by {
            assert(rest[j] == rows[j + 1]);
        }
        lemma_row_found(rest, i - 1, server);
    }
}

proof fn lemma_row_missing(rows: Seq<(String, Option<String>)>, server: Seq<char>)
    requires
        forall|j: int| 0 <= j < rows.len() ==> (#[trigger] rows[j]).0@ != server,
    ensures
        held_in(rows, server) is None,
    decreases rows.len(),
{
    if rows.len() > 0 {
        let rest = rows.drop_first();
        assert(rows[0].0@ != server);
        assert forall|j: int| 0 <= j < rest.len() implies (#[trigger] rest[j]).0@ != server by {
            assert(rest[j] == rows[j + 1]);
        }
        lemma_row_missing(rest, server);
    }
}

proof fn lemma_row_changed(rows: Seq<(String, Option<String>)>, i: int, row: (String, Option<String>))
    requires
        0 <= i < rows.len(),
        rows[i].0@ == row.0@,
        forall|j: int| 0 <= j < i ==> (#[trigger] rows[j]).0@ != row.0@,
    ensures
        held_in(rows.update(i, row), row.0@) == row.1,
        forall|other: Seq<char>|
            other != row.0@ ==> #[trigger] held_in(rows.update(i, row), other) == held_in(
                rows,
                other,
            ),
    decreases i,
{
    let after = rows.update(i, row);
    let rest = rows.drop_first();
    if i == 0 {
        assert(after.drop_first() =~= rest);
    } else {
        assert(rows[0].0@ != row.0@);
        assert forall|j: int| 0 <= j < i - 1 implies (#[trigger] rest[j]).0@ != row.0@ by {
            assert(rest[j] == rows[j + 1]);
        }
        lemma_row_changed(rest, i - 1, row);
        assert(after.drop_first() =~= rest.update(i - 1, row));
        assert(after[0] == rows[0]);
    }
    assert forall|other: Seq<char>| other != row.0@ implies #[trigger] held_in(after, other)
        == held_in(rows, other) by {
        if i > 0 && rows[0].0@ != other {
            assert(held_in(after, other) == held_in(rest.update(i - 1, row), other));
        }
    }
}

proof fn lemma_row_added(rows: Seq<(String, Option<String>)>, row: (String, Option<String>))
    requires
        forall|j: int| 0 <= j < rows.len() ==> (#[trigger] rows[j]).0@ != row.0@,
    ensures
        held_in(rows.push(row), row.0@) == row.1,
        forall|other: Seq<char>|
            other != row.0@ ==> #[trigger] held_in(rows.push(row), other) == held_in(rows, other),
    decreases rows.len(),
{
    let after = rows.push(row);
    if rows.len() == 0 {
        assert(after.drop_first() =~= rows);
    } else {
        let rest = rows.drop_first();
        assert(rows[0].0@ != row.0@);
        assert forall|j: int| 0 <= j < rest.len() implies (#[trigger] rest[j]).0@ != row.0@ by {
            assert(rest[j] == rows[j + 1]);
        }
        lemma_row_added(rest, row);
        assert(after.drop_first() =~= rest.push(row));
        assert(after[0] == rows[0]);
    }
    assert forall|other: Seq<char>| other != row.0@ implies #[trigger] held_in(after, other)
        == held_in(rows, other) by {
        if rows.len() > 0 && rows[0].0@ != other {
            assert(held_in(after, other) == held_in(rows.drop_first().push(row), other));
        }
    }
}

/// How the server answered a request.
#[derive(Clone, Copy, Debug, PartialEq, Eq)]
pub enum Reply {
    Accepted,
    /// The nonce was refused as stale.
    StaleNonce,
    Failed(NetworkFailure),
}

/// What to do after a reply.
#[derive(Clone, Copy, Debug, PartialEq, Eq)]
pub enum Verdict {
    /// The exchange succeeded.
    Done,
    /// Send the same request once more, with the nonce now held.
    Resend,
    /// The exchange failed with this error.
    Surface(AcmeError),
}

/// How to send a request.
#[derive(Clone, Debug, PartialEq, Eq)]
pub enum Sending {
    WithNonce(String),
    /// No nonce is held: ask the server for one first.
    FetchNonceFirst,
}

/// One request and its answer, with at most one repetition.
#[derive(Clone, Copy, Debug, PartialEq, Eq)]
pub struct Exchange {
    /// Whether the request was sent a second time already.
    pub resent: bool,
}

impl Exchange {
    /// An exchange that has not sent anything yet.
    pub fn begin() -> (e: Exchange)
        ensures
            !e.resent,
    {
        Exchange { resent: false }
    }

    /// How to send the request to a server now: with the nonce held for
    /// it, which leaves the book, or after fetching one.
    pub fn prepare(&self, book: &mut NonceBook, server: &str) -> (s: Sending)
        ensures
            final(book).held(server@) is None,
            forall|other: Seq<char>|
                other != server@ ==> #[trigger] final(book).held(other) == old(book).held(other),
            s == match old(book).held(server@) {
                Some(n) => Sending::WithNonce(n),
                None => Sending::FetchNonceFirst,
            },
    {
        match book.take(server) {
            Some(n) => Sending::WithNonce(n),
            None => Sending::FetchNonceFirst,
        }
    }

    /// What a reply means for the exchange.
    pub open spec fn judge(self, reply: Reply) -> (Exchange, Verdict) {
        match reply {
            Reply::Accepted => (self, Verdict::Done),
            Reply::StaleNonce => if self.resent {
                (self, Verdict::Surface(AcmeError::StaleNonce))
            } else {
                (Exchange { resent: true }, Verdict::Resend)
            },
            Reply::Failed(f) => (self, Verdict::Surface(AcmeError::Network(f))),
        }
    }

    /// Takes a server's reply. Whatever the reply, the nonce it brought is
    /// the one held for the server from now on. A stale nonce is answered
    /// by sending once more, the first time, and by failure the second time.
    pub fn receive(
        &mut self,
        book: &mut NonceBook,
        server: &str,
        reply: Reply,
        fresh: Option<String>,
    ) -> (v: Verdict)
        ensures
            (*final(self), v) == old(self).judge(reply),
            final(book).held(server@) == match fresh {
                Some(n) => Some(n),
                None => old(book).held(server@),
            },
            forall|other: Seq<char>|
                other != server@ ==> #[trigger] final(book).held(other) == old(book).held(other),
    {
        book.refresh(server, fresh);
        match reply {
            Reply::Accepted => Verdict::Done,
            Reply::StaleNonce => {
                if self.resent {
                    Verdict::Surface(AcmeError::StaleNonce)
                } else {
                    self.resent = true;
                    Verdict::Resend
                }
            },
            Reply::Failed(f) => Verdict::Surface(AcmeError::Network(f)),
        }
    }
}

/// The verdicts on a run of replies to one exchange, up to and including
/// the first that ends it.
pub open spec fn verdicts(e: Exchange, replies: Seq<Reply>) -> Seq<Verdict>
    decreases replies.len(),
{
    if replies.len() == 0 {
        Seq::empty()
    } else {
        let (after, v) = e.judge(replies[0]);
        if v is Resend {
            seq![v] + verdicts(after, replies.drop_first())
        } else {
            seq![v]
        }
    }
}

/// A request is sent at most twice: whatever the server answers, an
/// exchange ends with its second reply at the latest, and only a stale
/// nonce on the first reply makes it go on.
pub proof fn law_resent_at_most_once(replies: Seq<Reply>)
    ensures
        verdicts(Exchange { resent: false }, replies).len() <= 2,
        verdicts(Exchange { resent: false }, replies).len() == 2 ==> replies[0]
            == Reply::StaleNonce,
        replies.len() >= 2 && replies[0] == Reply::StaleNonce && replies[1] == Reply::Accepted
            ==> verdicts(Exchange { resent: false }, replies) == seq![
            Verdict::Resend,
            Verdict::Done,
        ],
{
    reveal_with_fuel(verdicts, 3);
    if replies.len() >= 2 && replies[0] == Reply::StaleNonce {
        let rest = replies.drop_first();
        assert(rest[0] == replies[1]);
        let tail = verdicts(Exchange { resent: true }, rest);
        assert(tail.len() == 1);
        if replies[1] == Reply::Accepted {
            assert(seq![Verdict::Resend] + tail =~= seq![Verdict::Resend, Verdict::Done]);
        }
    }
}

/// How an authorization is polled.
#[derive(Clone, Copy, Debug, PartialEq, Eq)]
pub struct PollPolicy {
    /// Seconds before the second poll.
    pub min_interval: u64,
    /// Seconds that all waits together may take.
    pub max_total: u64,
}

/// What the server says of an authorization.
#[derive(Clone, Copy, Debug, PartialEq, Eq)]
pub enum AuthorizationStatus {
    Pending,
    Valid,
    Invalid,
}

/// What to do after a poll.
#[derive(Clone, Copy, Debug, PartialEq, Eq)]
pub enum PollStep {
    /// Wait this many seconds, then poll again.
    Wait(u64),
    /// The authorization is valid.
    Proceed,
    /// Polling ends with this error.
    GiveUp(AcmeError),
}

impl PollPolicy {
    /// The wait before the next poll, after `polls` polls and `waited`
    /// seconds of waiting: the minimum interval doubled once per earlier
    /// poll, cut to what is left of the total, and at least one second.
    /// There is none once the total is used up.
    pub open spec fn wait_spec(self, polls: nat, waited: u64) -> Option<u64> {
        if waited >= self.max_total {
            None
        } else {
            let left = (self.max_total - waited) as nat;
            let grown = delay_spec(self.min_interval, self.max_total, polls);
            if grown == 0 {
                Some(1)
            } else if grown <= left {
                Some(grown as u64)
            } else {
                Some(left as u64)
            }
        }
    }

    /// Computes [`Self::wait_spec`]. A wait is at least a second and never
    /// takes the total past its bound, so polling ends.
    pub fn wait(&self, polls: u32, waited: u64) -> (w: Option<u64>)
        ensures
            w == self.wait_spec(polls as nat, waited),
            w matches Some(secs) ==> 1 <= secs && waited + secs <= self.max_total,
    {
        if waited >= self.max_total {
            return None;
        }
        let left = self.max_total - waited;
        let grown = delay(self.min_interval, self.max_total, polls);
        if grown == 0 {
            Some(1)
        } else if grown <= left {
            Some(grown)
        } else {
            Some(left)
        }
    }

    /// The seconds waited after `polls` polls that each found the
    /// authorization pending and waited as the policy says.
    pub open spec fn waited_after(self, polls: nat) -> u64
        decreases polls,
    {
        if polls == 0 {
            0
        } else {
            let before = self.waited_after((polls - 1) as nat);
            match self.wait_spec((polls - 1) as nat, before) {
                Some(secs) => (before + secs) as u64,
                None => before,
            }
        }
    }

    /// What follows from a poll's answer.
    pub open spec fn after_poll_spec(self, status: AuthorizationStatus, polls: nat, waited: u64)
        -> PollStep {
        match status {
            AuthorizationStatus::Valid => PollStep::Proceed,
            AuthorizationStatus::Invalid => PollStep::GiveUp(AcmeError::AuthorizationInvalid),
            AuthorizationStatus::Pending => match self.wait_spec(polls, waited) {
                Some(secs) => PollStep::Wait(secs),
                None => PollStep::GiveUp(AcmeError::PollTimeout),
            },
        }
    }

    /// Decides what to do after a poll.
    pub fn after_poll(&self, status: AuthorizationStatus, polls: u32, waited: u64) -> (s:
        PollStep)
        ensures
            s == self.after_poll_spec(status, polls as nat, waited),
    {
        match status {
            AuthorizationStatus::Valid => PollStep::Proceed,
            AuthorizationStatus::Invalid => PollStep::GiveUp(AcmeError::AuthorizationInvalid),
            AuthorizationStatus::Pending => match self.wait(polls, waited) {
                Some(secs) => PollStep::Wait(secs),
                None => PollStep::GiveUp(AcmeError::PollTimeout),
            },
        }
    }
}

/// Polling ends: the waits never add up to more than the total allowed,
/// each takes at least a second of it, and so after as many polls as the
/// total has seconds, at the latest, there is no further wait.
pub proof fn law_polling_ends(policy: PollPolicy, polls: nat)
    ensures
        policy.waited_after(polls) <= policy.max_total,
        policy.waited_after(polls) >= polls || policy.waited_after(polls) == policy.max_total,
        polls >= policy.max_total ==> policy.wait_spec(polls, policy.waited_after(polls)) is None,
    decreases polls,
{
    if polls > 0 {
        law_polling_ends(policy, (polls - 1) as nat);
    }
}

/// Where an order stands, going by its authorizations.
#[derive(Clone, Copy, Debug, PartialEq, Eq)]
pub enum Survey {
    /// Every authorization is valid: the order can be finalized.
    AllValid,
    /// The authorization at this position is the first still to be solved.
    Pending(usize),
    /// The authorization at this position is the first found invalid.
    Invalid(usize),
}

/// The position of the first authorization with the status `wanted`; the
/// length where there is none.
pub open spec fn first_with(statuses: Seq<AuthorizationStatus>, wanted: AuthorizationStatus)
    -> int
    decreases statuses.len(),
{
    if statuses.len() == 0 || statuses[0] == wanted {
        0
    } else {
        1 + first_with(statuses.drop_first(), wanted)
    }
}

/// Where an order stands: an invalid authorization decides before a
/// pending one, and an order without authorizations has them all valid.
pub open spec fn survey_of(statuses: Seq<AuthorizationStatus>) -> Survey {
    let invalid = first_with(statuses, AuthorizationStatus::Invalid);
    let pending = first_with(statuses, AuthorizationStatus::Pending);
    if invalid < statuses.len() {
        Survey::Invalid(invalid as usize)
    } else if pending < statuses.len() {
        Survey::Pending(pending as usize)
    } else {
        Survey::AllValid
    }
}

/// Whether two statuses are the same.
pub fn same_status(a: AuthorizationStatus, b: AuthorizationStatus) -> (r: bool)
    ensures
        r == (a == b),
{
    match (a, b) {
        (AuthorizationStatus::Pending, AuthorizationStatus::Pending) => true,
        (AuthorizationStatus::Valid, AuthorizationStatus::Valid) => true,
        (AuthorizationStatus::Invalid, AuthorizationStatus::Invalid) => true,
        _ => false,
    }
}

fn find_status(statuses: &Vec<AuthorizationStatus>, wanted: AuthorizationStatus) -> (at: usize)
    ensures
        at == first_with(statuses@, wanted),
        at <= statuses@.len(),
        at < statuses@.len() ==> statuses@[at as int] == wanted,
        forall|i: int| 0 <= i < at ==> statuses@[i] != wanted,
{
    let mut i: usize = 0;
    proof {
        assert(statuses@.skip(0) =~= statuses@);
    }
    while i < statuses.len() && !same_status(statuses[i], wanted)
        invariant
            i <= statuses@.len(),
            first_with(statuses@, wanted) == i + first_with(statuses@.skip(i as int), wanted),
            forall|j: int| 0 <= j < i ==> statuses@[j] != wanted,
        decreases statuses@.len() - i,
    {
        proof {
            assert(statuses@.skip(i as int).drop_first() =~= statuses@.skip(i + 1));
        }
        i = i + 1;
    }
    i
}

/// Surveys the authorizations of an order.
pub fn survey(statuses: &Vec<AuthorizationStatus>) -> (s: Survey)
    ensures
        s == survey_of(statuses@),
        s matches Survey::Invalid(at) ==> at < statuses@.len() && statuses@[at as int]
            == AuthorizationStatus::Invalid,
        s matches Survey::Pending(at) ==> at < statuses@.len() && statuses@[at as int]
            == AuthorizationStatus::Pending,
        s is AllValid <==> forall|i: int|
            0 <= i < statuses@.len() ==> statuses@[i] == AuthorizationStatus::Valid,
{
    let invalid = find_status(statuses, AuthorizationStatus::Invalid);
    if invalid < statuses.len() {
        return Survey::Invalid(invalid);
    }
    let pending = find_status(statuses, AuthorizationStatus::Pending);
    if pending < statuses.len() {
        return Survey::Pending(pending);
    }
    Survey::AllValid
}

} // verus!
