//! Challenge solving: what is provisioned for a challenge and where, when a
//! provisioned challenge counts as ready, and the book of the records that
//! are provisioned and still to be released.

use vstd::prelude::*;
use crate::client::PollPolicy;
use crate::client::SolveError;
use crate::config::ChallengeType;
use crate::config::DnsType;

verus! {

/// What was provisioned for a challenge.
#[derive(Clone, Debug, PartialEq, Eq)]
pub enum Provision {
    /// A file served under this path of the domain's web server.
    HttpFile(String),
    /// A TXT record published under this name.
    DnsRecord(String),
    /// A listener that presents a certificate made for the challenge.
    TlsListener,
}

/// A provisioned challenge.
#[derive(Clone, Debug, PartialEq, Eq)]
pub struct ChallengeRecord {
    /// The reference under which the entry's machine knows the record.
    pub reference: u64,
    pub token: String,
    pub authorization_url: String,
    pub domain: String,
    pub provision: Provision,
}

/// The path under which the answer to an HTTP challenge is served.
pub open spec fn http_path_of(token: Seq<char>) -> Seq<char> {
    "/.well-known/acme-challenge/"@ + token
}

/// The name under which the answer to a DNS challenge is published.
pub open spec fn dns_name_of(domain: Seq<char>) -> Seq<char> {
    "_acme-challenge."@ + domain
}

/// The path under which the answer to an HTTP challenge is served.
pub fn http_path(token: &str) -> (path: String)
    ensures
        path@ == http_path_of(token@),
{
    let mut path = "/.well-known/acme-challenge/".to_owned();
    path.append(token);
    path
}

/// The name under which the answer to a DNS challenge is published.
pub fn dns_name(domain: &str) -> (name: String)
    ensures
        name@ == dns_name_of(domain@),
{
    let mut name = "_acme-challenge.".to_owned();
    name.append(domain);
    name
}

/// Whether a challenge of this type can be solved with this resolver: the
/// DNS challenge needs a resolver that can publish.
pub open spec fn solvable(challenge: ChallengeType, dns: DnsType) -> bool {
    challenge is Dns01 ==> dns.writable()
}

/// What is to be provisioned for a challenge of this type.
pub open spec fn provision_of(challenge: ChallengeType, domain: Seq<char>, token: Seq<char>)
    -> ProvisionView {
    match challenge {
        ChallengeType::Http01 => ProvisionView::HttpFile(http_path_of(token)),
        ChallengeType::Dns01 => ProvisionView::DnsRecord(dns_name_of(domain)),
        ChallengeType::TlsAlpn => ProvisionView::TlsListener,
    }
}

/// A provision with its texts as sequences.
pub enum ProvisionView {
    HttpFile(Seq<char>),
    DnsRecord(Seq<char>),
    TlsListener,
}

impl View for Provision {
    type V = ProvisionView;

    open spec fn view(&self) -> ProvisionView {
        match *self {
            Provision::HttpFile(path) => ProvisionView::HttpFile(path@),
            Provision::DnsRecord(name) => ProvisionView::DnsRecord(name@),
            Provision::TlsListener => ProvisionView::TlsListener,
        }
    }
}

/// Makes the record of a challenge before anything is provisioned. This
/// fails exactly for a DNS challenge with a resolver that cannot publish.
pub fn prepare(
    challenge: ChallengeType,
    dns: &DnsType,
    reference: u64,
    domain: &str,
    token: &str,
    authorization_url: &str,
) -> (r: Result<ChallengeRecord, SolveError>)
    ensures
        match r {
            Ok(record) => {
                &&& solvable(challenge, *dns)
                &&& record.reference == reference
                &&& record.token@ == token@
                &&& record.authorization_url@ == authorization_url@
                &&& record.domain@ == domain@
                &&& record.provision@ == provision_of(challenge, domain@, token@)
            },
            Err(e) => !solvable(challenge, *dns) && e == SolveError::NoWriteCapability,
        },
{
    let provision = match challenge {
        ChallengeType::Http01 => Provision::HttpFile(http_path(token)),
        ChallengeType::Dns01 => {
            if !dns.can_publish() {
                return Err(SolveError::NoWriteCapability);
            }
            Provision::DnsRecord(dns_name(domain))
        },
        ChallengeType::TlsAlpn => Provision::TlsListener,
    };
    Ok(
        ChallengeRecord {
            reference: reference,
            token: token.to_owned(),
            authorization_url: authorization_url.to_owned(),
            domain: domain.to_owned(),
            provision: provision,
        },
    )
}

/// Whether two challenge types are the same.
pub fn same_challenge(a: ChallengeType, b: ChallengeType) -> (r: bool)
    ensures
        r == (a == b),
{
    match (a, b) {
        (ChallengeType::Http01, ChallengeType::Http01) => true,
        (ChallengeType::Dns01, ChallengeType::Dns01) => true,
        (ChallengeType::TlsAlpn, ChallengeType::TlsAlpn) => true,
        _ => false,
    }
}

/// Picks, among the challenges that an authorization offers, the one of
/// the entry's type: the first of that type, and none where the server
/// offers no such challenge.
pub fn pick_challenge(offered: &Vec<ChallengeType>, wanted: ChallengeType) -> (at: Option<usize>)
    ensures
        match at {
            Some(k) => {
                &&& k < offered@.len()
                &&& offered@[k as int] == wanted
                &&& forall|i: int| 0 <= i < k ==> offered@[i] != wanted
            },
            None => forall|i: int| 0 <= i < offered@.len() ==> offered@[i] != wanted,
        },
{
    let mut i: usize = 0;
    while i < offered.len()
        invariant
            i <= offered@.len(),
            forall|j: int| 0 <= j < i ==> offered@[j] != wanted,
        decreases offered@.len() - i,
    {
        if same_challenge(offered[i], wanted) {
            return Some(i);
        }
        i = i + 1;
    }
    None
}

/// What to do after looking whether a provisioned challenge is visible.
#[derive(Clone, Copy, Debug, PartialEq, Eq)]
pub enum ReadyStep {
    /// Tell the server to validate.
    Ready,
    /// Look again after this many seconds.
    Wait(u64),
    /// Give up with this error.
    GiveUp(SolveError),
}

/// What follows from one look. A visible challenge is ready. A DNS record
/// that is not visible yet is looked for again, as long as the policy gives
/// time; the other challenges are checked once and fail at once.
pub open spec fn ready_step_of(
    challenge: ChallengeType,
    visible: bool,
    policy: PollPolicy,
    looks: nat,
    waited: u64,
) -> ReadyStep {
    if visible {
        ReadyStep::Ready
    } else if challenge is Dns01 {
        match policy.wait_spec(looks, waited) {
            Some(secs) => ReadyStep::Wait(secs),
            None => ReadyStep::GiveUp(SolveError::NotReady),
        }
    } else {
        ReadyStep::GiveUp(SolveError::NotReady)
    }
}

/// Decides what to do after a look.
pub fn verify_ready(
    challenge: ChallengeType,
    visible: bool,
    policy: &PollPolicy,
    looks: u32,
    waited: u64,
) -> (step: ReadyStep)
    ensures
        step == ready_step_of(challenge, visible, *policy, looks as nat, waited),
{
    if visible {
        return ReadyStep::Ready;
    }
    match challenge {
        ChallengeType::Dns01 => match policy.wait(looks, waited) {
            Some(secs) => ReadyStep::Wait(secs),
            None => ReadyStep::GiveUp(SolveError::NotReady),
        },
        _ => ReadyStep::GiveUp(SolveError::NotReady),
    }
}

/// The records that are provisioned and not yet released.
pub struct Ledger {
    records: Vec<ChallengeRecord>,
}

/// The references of records, in order.
pub open spec fn references(records: Seq<ChallengeRecord>) -> Seq<u64> {
    Seq::new(records.len(), |i: int| records[i].reference)
}

impl Ledger {
    /// The records held, oldest first.
    pub closed spec fn records(self) -> Seq<ChallengeRecord> {
        self.records@
    }

    /// What holds of every ledger: no reference occurs twice.
    pub open spec fn wf(self) -> bool {
        forall|i: int, j: int|
            0 <= i < j < self.records().len() ==> (#[trigger] self.records()[i]).reference != (
            #[trigger] self.records()[j]).reference
    }

    /// Whether a record with this reference is held.
    pub open spec fn holds(self, reference: u64) -> bool {
        exists|i: int|
            0 <= i < self.records().len() && (#[trigger] self.records()[i]).reference == reference
    }

    /// A ledger without records.
    pub fn new() -> (l: Ledger)
        ensures
            l.wf(),
            l.records() == Seq::<ChallengeRecord>::empty(),
    {
        Ledger { records: Vec::new() }
    }

    /// The number of records held.
    pub fn len(&self) -> (n: usize)
        ensures
            n == self.records().len(),
    {
        self.records.len()
    }

    fn find(&self, reference: u64) -> (r: Option<usize>)
        ensures
            r is Some <==> self.holds(reference),
            r matches Some(at) ==> at < self.records@.len() && self.records@[at as int].reference
                == reference,
    {
        let mut i: usize = 0;
        while i < self.records.len()
            invariant
                i <= self.records@.len(),
                forall|j: int| 0 <= j < i ==> (#[trigger] self.records@[j]).reference != reference,
            decreases self.records@.len() - i,
        {
            if self.records[i].reference == reference {
                return Some(i);
            }
            i = i + 1;
        }
        None
    }

    /// Enters a record. A record whose reference is held already is not
    /// entered, and comes back.
    pub fn open(&mut self, record: ChallengeRecord) -> (refused: Option<ChallengeRecord>)
        requires
            old(self).wf(),
        ensures
            final(self).wf(),
            old(self).holds(record.reference) ==> refused == Some(record) && final(self).records()
                == old(self).records(),
            !old(self).holds(record.reference) ==> refused is None && final(self).records() == old(
                self,
            ).records().push(record),
    {
        match self.find(record.reference) {
            Some(_) => Some(record),
            None => {
                self.records.push(record);
                None
            },
        }
    }

    /// Takes the record with this reference out, to be cleaned up. A
    /// reference gives its record once: after that it is not held.
    pub fn release(&mut self, reference: u64) -> (record: Option<ChallengeRecord>)
        requires
            old(self).wf(),
        ensures
            final(self).wf(),
            !final(self).holds(reference),
            record is Some <==> old(self).holds(reference),
            record matches Some(r) ==> r.reference == reference && exists|at: int|
                0 <= at < old(self).records().len() && #[trigger] old(self).records()[at] == r
                    && final(self).records() == old(self).records().remove(at),
            record is None ==> final(self).records() == old(self).records(),
    {
        match self.find(reference) {
            Some(at) => {
                let ghost before = self.records@;
                let record = self.records.remove(at);
                proof {
                    before.remove_ensures(at as int);
                    assert(before[at as int] == record);
                    assert forall|i: int| 0 <= i < self.records@.len() implies (
                    #[trigger] self.records@[i]).reference != reference by {
                        if i < at {
                            assert(self.records@[i] == before[i]);
                        } else {
                            assert(self.records@[i] == before[i + 1]);
                        }
                    }
                }
                Some(record)
            },
            None => None,
        }
    }

    /// Takes every record out, oldest first, as a shutdown does: each is to
    /// be cleaned up, and none is held afterwards.
    pub fn drain(&mut self) -> (all: Vec<ChallengeRecord>)
        ensures
            all@ == old(self).records(),
            final(self).records() == Seq::<ChallengeRecord>::empty(),
            final(self).wf(),
    {
        let mut all: Vec<ChallengeRecord> = Vec::new();
        core::mem::swap(&mut all, &mut self.records);
        all
    }
}

} // verus!
