//! The configuration as it is read, and the checks that turn each configured
//! output into an entry ready for the scheduler, or disable it.

use vstd::prelude::*;
use crate::store::mode_of;
use crate::store::parse_mode;
use crate::threshold::duration_of;
use crate::threshold::parse_duration;
use crate::threshold::parse_threshold;
use crate::threshold::RenewThreshold;
use crate::threshold::threshold_of;

verus! {

/// Which parts of the issued material a file holds.
#[derive(Clone, Copy, Debug, PartialEq, Eq, Hash)]
pub enum CertContent {
    CertOnly,
    KeyOnly,
    CertKey,
    CertChainOnly,
    CertChainKey,
}

/// The encoding of a delivered file.
#[derive(Clone, Copy, Debug, PartialEq, Eq, Hash)]
pub enum CertType {
    PEM,
    DER,
    PKCS7,
    PKCS12,
}

/// An ACME server.
#[derive(Clone, Debug, PartialEq, Eq, Hash)]
pub struct AcmeServer {
    pub host: String,
    pub port: u16,
    pub url: String,
}

/// The server of an output: one of the shared table, by name, or one given
/// in place.
#[derive(Clone, Debug, PartialEq, Eq, Hash)]
pub enum ConfigAcmeServer {
    Ref(String),
    Inline(AcmeServer),
}

/// The way in which control of a domain is shown.
#[derive(Clone, Copy, Debug, PartialEq, Eq, Hash)]
pub enum ChallengeType {
    Http01,
    Dns01,
    TlsAlpn,
}

/// The resolver that serves an entry.
#[derive(Clone, Debug, PartialEq, Eq, Hash)]
pub enum DnsType {
    SystemDNS,
    SoftwareDNS(String),
    DoT(String),
    DoH(String),
}

/// How dependent services learn of a new certificate.
#[derive(Clone, Debug, PartialEq, Eq, Hash)]
pub enum ReloadType {
    CLI(String),
    UnixSocket(String),
    NetSocket(u16, String),
}

/// A user or a group, by number or by name.
#[derive(Clone, Debug, PartialEq, Eq, Hash)]
pub enum UserAndGroup {
    ID(u32),
    Name(String),
}

/// A file to write, with its permissions and owners.
#[derive(Clone, Debug, PartialEq, Eq, Hash)]
pub struct FileSave {
    pub path: String,
    pub mode: Option<String>,
    pub gid: Option<UserAndGroup>,
    pub uid: Option<UserAndGroup>,
}

/// One configured certificate output.
#[derive(Clone, Debug, PartialEq, Eq, Hash)]
pub struct CentOutput {
    pub domains: Vec<String>,
    pub cert_file: FileSave,
    pub cert_type: CertType,
    pub cert_content: CertContent,
    pub from_server: ConfigAcmeServer,
    pub challenge_type: ChallengeType,
    pub dns_type: DnsType,
    pub renew_threshold: String,
    pub reload_type: Option<ReloadType>,
    pub log_file: Option<FileSave>,
}

/// The whole configuration. The two tables keep the order in which their
/// names were read; a name is looked up from the front.
#[derive(Clone, Debug, PartialEq, Eq)]
pub struct ConfigFile {
    pub user_id: UserAndGroup,
    pub check_interval: Option<String>,
    pub log_file: Option<FileSave>,
    pub acme_servers: Option<Vec<(String, AcmeServer)>>,
    pub cert_output: Vec<(String, CentOutput)>,
}

/// Why a configuration, or one of its outputs, is refused.
#[derive(Clone, Copy, Debug, PartialEq, Eq, Hash)]
pub enum ConfigError {
    /// The output names no domain.
    NoDomains,
    /// The output refers to a server that the table does not hold.
    UnresolvedServer,
    /// The encoding needs both certificate and key, and the content lacks one.
    InsufficientContent,
    /// The DNS challenge is asked for with a resolver that cannot publish.
    DnsNotWritable,
    /// The renewal threshold is neither a duration nor a percentage.
    BadThreshold,
    /// A file mode is not an octal number of permission bits.
    BadMode,
    /// The check interval is not a duration of at least one second.
    BadInterval,
}

/// An output that passed every check, with its server looked up and its
/// texts read.
#[derive(Clone, Debug, PartialEq, Eq)]
pub struct CertificateEntry {
    pub name: String,
    pub domains: Vec<String>,
    pub server: AcmeServer,
    pub challenge_type: ChallengeType,
    pub dns_type: DnsType,
    pub threshold: RenewThreshold,
    pub cert_type: CertType,
    pub cert_content: CertContent,
    pub cert_file: FileSave,
    /// The permission bits of `cert_file`, where it names any.
    pub mode: Option<u32>,
    pub reload_type: Option<ReloadType>,
    pub log_file: Option<FileSave>,
}

/// What became of one configured output.
#[derive(Clone, Debug, PartialEq, Eq)]
pub enum Slot {
    Enabled(CertificateEntry),
    /// The output of this name is left out, for this reason.
    Disabled(String, ConfigError),
}

/// A configuration that was accepted.
#[derive(Clone, Debug, PartialEq, Eq)]
pub struct LoadedConfig {
    pub user_id: UserAndGroup,
    /// Seconds between two evaluations of the entries.
    pub check_interval: u64,
    pub log_file: Option<FileSave>,
    /// One slot per configured output, in the configuration's order.
    pub slots: Vec<Slot>,
}

/// Seconds between two evaluations where the configuration names none.
pub const DEFAULT_CHECK_INTERVAL: u64 = 3_600;

impl CertContent {
    /// Whether the content holds the certificate itself.
    pub open spec fn has_certificate(self) -> bool {
        !(self is KeyOnly)
    }

    /// Whether the content holds the issuer chain.
    pub open spec fn has_chain(self) -> bool {
        self is CertChainOnly || self is CertChainKey
    }

    /// Whether the content holds the private key.
    pub open spec fn has_key(self) -> bool {
        self is KeyOnly || self is CertKey || self is CertChainKey
    }

    pub fn with_certificate(&self) -> (r: bool)
        ensures
            r == self.has_certificate(),
    {
        match self {
            CertContent::KeyOnly => false,
            _ => true,
        }
    }

    pub fn with_chain(&self) -> (r: bool)
        ensures
            r == self.has_chain(),
    {
        match self {
            CertContent::CertChainOnly | CertContent::CertChainKey => true,
            _ => false,
        }
    }

    pub fn with_key(&self) -> (r: bool)
        ensures
            r == self.has_key(),
    {
        match self {
            CertContent::KeyOnly | CertContent::CertKey | CertContent::CertChainKey => true,
            _ => false,
        }
    }
}

impl CertType {
    /// Whether this encoding can hold the content: PKCS12 needs both the
    /// certificate and the key, the others take any content.
    pub open spec fn holds(self, content: CertContent) -> bool {
        self is PKCS12 ==> content.has_certificate() && content.has_key()
    }

    pub fn can_hold(&self, content: CertContent) -> (r: bool)
        ensures
            r == self.holds(content),
    {
        match self {
            CertType::PKCS12 => content.with_certificate() && content.with_key(),
            _ => true,
        }
    }
}

impl DnsType {
    /// Whether records can be published through this resolver. The system's
    /// own resolver only reads.
    pub open spec fn writable(self) -> bool {
        !(self is SystemDNS)
    }

    pub fn can_publish(&self) -> (r: bool)
        ensures
            r == self.writable(),
    {
        match self {
            DnsType::SystemDNS => false,
            _ => true,
        }
    }
}

impl DnsType {
    /// Whether the way to this resolver must be confidential: DNS over TLS
    /// and DNS over HTTPS are, by their nature.
    pub open spec fn confidential(self) -> bool {
        self is DoT || self is DoH
    }

    /// Computes [`Self::confidential`].
    pub fn needs_confidentiality(&self) -> (r: bool)
        ensures
            r == self.confidential(),
    {
        match self {
            DnsType::DoT(_) | DnsType::DoH(_) => true,
            _ => false,
        }
    }

    /// The endpoint that the resolver is reached at; none for the system's
    /// own resolver, which has no endpoint of its own.
    pub fn endpoint(&self) -> (e: Option<&String>)
        ensures
            e == match *self {
                DnsType::SystemDNS => None::<&String>,
                DnsType::SoftwareDNS(at) => Some(&at),
                DnsType::DoT(at) => Some(&at),
                DnsType::DoH(at) => Some(&at),
            },
    {
        match self {
            DnsType::SystemDNS => None,
            DnsType::SoftwareDNS(at) => Some(at),
            DnsType::DoT(at) => Some(at),
            DnsType::DoH(at) => Some(at),
        }
    }
}

impl AcmeServer {
    /// A copy of this server.
    pub fn duplicate(&self) -> (r: AcmeServer)
        ensures
            r == *self,
    {
        AcmeServer { host: self.host.clone(), port: self.port, url: self.url.clone() }
    }
}

/// The server that the table holds under `name`: the first of that name.
pub open spec fn find_server(table: Seq<(String, AcmeServer)>, name: Seq<char>) -> Option<
    AcmeServer,
>
    decreases table.len(),
{
    if table.len() == 0 {
        None
    } else if table[0].0@ == name {
        Some(table[0].1)
    } else {
        find_server(table.drop_first(), name)
    }
}

/// The server that an output's reference stands for.
pub open spec fn server_of(from: ConfigAcmeServer, table: Seq<(String, AcmeServer)>) -> Option<
    AcmeServer,
> {
    match from {
        ConfigAcmeServer::Inline(server) => Some(server),
        ConfigAcmeServer::Ref(name) => find_server(table, name@),
    }
}

/// The permission bits that a file names: none where it names no mode, and
/// no result where the mode cannot be read.
pub open spec fn file_mode(file: FileSave) -> Option<Option<u32>> {
    match file.mode {
        None => Some(None),
        Some(text) => match mode_of(text@) {
            Some(bits) => Some(Some(bits)),
            None => None,
        },
    }
}

/// Whether an optional file names a mode that cannot be read.
pub open spec fn bad_mode(file: Option<FileSave>) -> bool {
    file matches Some(f) && file_mode(f) is None
}

/// The first reason, in the order of [`ConfigError`], for which an output is
/// refused; none where it passes.
pub open spec fn entry_error(output: CentOutput, table: Seq<(String, AcmeServer)>) -> Option<
    ConfigError,
> {
    if output.domains@.len() == 0 {
        Some(ConfigError::NoDomains)
    } else if server_of(output.from_server, table) is None {
        Some(ConfigError::UnresolvedServer)
    } else if !output.cert_type.holds(output.cert_content) {
        Some(ConfigError::InsufficientContent)
    } else if output.challenge_type is Dns01 && !output.dns_type.writable() {
        Some(ConfigError::DnsNotWritable)
    } else if threshold_of(output.renew_threshold@) is None {
        Some(ConfigError::BadThreshold)
    } else if file_mode(output.cert_file) is None || bad_mode(output.log_file) {
        Some(ConfigError::BadMode)
    } else {
        None
    }
}

/// The entry that an accepted output becomes.
pub open spec fn resolved(name: String, output: CentOutput, table: Seq<(String, AcmeServer)>)
    -> CertificateEntry {
    CertificateEntry {
        name: name,
        domains: output.domains,
        server: server_of(output.from_server, table)->0,
        challenge_type: output.challenge_type,
        dns_type: output.dns_type,
        threshold: threshold_of(output.renew_threshold@)->0,
        cert_type: output.cert_type,
        cert_content: output.cert_content,
        cert_file: output.cert_file,
        mode: file_mode(output.cert_file)->0,
        reload_type: output.reload_type,
        log_file: output.log_file,
    }
}

/// What becomes of an output: the entry, or the reason for leaving it out.
pub open spec fn slot_of(name: String, output: CentOutput, table: Seq<(String, AcmeServer)>)
    -> Slot {
    match entry_error(output, table) {
        Some(e) => Slot::Disabled(name, e),
        None => Slot::Enabled(resolved(name, output, table)),
    }
}

/// The check interval that a configuration names: the default where it
/// names none, and no result where the text is not a duration of at least
/// one second that fits in 64 bits.
pub open spec fn interval_of(text: Option<String>) -> Option<u64> {
    match text {
        None => Some(DEFAULT_CHECK_INTERVAL),
        Some(t) => match duration_of(t@) {
            Some(d) => if 1 <= d <= u64::MAX {
                Some(d as u64)
            } else {
                None
            },
            None => None,
        },
    }
}

/// Looks a server up by name.
pub fn lookup_server<'a>(table: &'a Vec<(String, AcmeServer)>, name: &String) -> (r: Option<
    &'a AcmeServer,
>)
    ensures
        r is Some <==> find_server(table@, name@) is Some,
        r matches Some(s) ==> find_server(table@, name@) == Some(*s),
{
    let mut i: usize = 0;
    proof {
        assert(table@.subrange(0, table@.len() as int) =~= table@);
    }
    while i < table.len()
        invariant
            i <= table@.len(),
            find_server(table@, name@) == find_server(
                table@.subrange(i as int, table@.len() as int),
                name@,
            ),
        decreases table@.len() - i,
    {
        let ghost rest = table@.subrange(i as int, table@.len() as int);
        proof {
            assert(rest[0] == table@[i as int]);
            assert(rest.drop_first() =~= table@.subrange(i + 1, table@.len() as int));
        }
        if table[i].0 == *name {
            return Some(&table[i].1);
        }
        i = i + 1;
    }
    proof {
        assert(table@.subrange(i as int, table@.len() as int).len() == 0);
    }
    None
}

fn read_mode(file: &FileSave) -> (r: Option<Option<u32>>)
    ensures
        r == file_mode(*file),
{
    match &file.mode {
        None => Some(None),
        Some(text) => match parse_mode(text.as_str()) {
            Some(bits) => Some(Some(bits)),
            None => None,
        },
    }
}

/// Checks one output and makes it an entry. The result is the entry exactly
/// when no check refuses the output; else the output is disabled, with the
/// first reason.
pub fn load_entry(name: String, output: CentOutput, table: &Vec<(String, AcmeServer)>) -> (r:
    Slot)
    ensures
        r == slot_of(name, output, table@),
{
    if output.domains.len() == 0 {
        return Slot::Disabled(name, ConfigError::NoDomains);
    }
    let CentOutput {
        domains,
        cert_file,
        cert_type,
        cert_content,
        from_server,
        challenge_type,
        dns_type,
        renew_threshold,
        reload_type,
        log_file,
    } = output;
    let server = match from_server {
        ConfigAcmeServer::Inline(server) => server,
        ConfigAcmeServer::Ref(wanted) => match lookup_server(table, &wanted) {
            Some(found) => found.duplicate(),
            None => {
                return Slot::Disabled(name, ConfigError::UnresolvedServer);
            },
        },
    };
    if !cert_type.can_hold(cert_content) {
        return Slot::Disabled(name, ConfigError::InsufficientContent);
    }
    let by_dns = match challenge_type {
        ChallengeType::Dns01 => true,
        _ => false,
    };
    if by_dns && !dns_type.can_publish() {
        return Slot::Disabled(name, ConfigError::DnsNotWritable);
    }
    let threshold = match parse_threshold(renew_threshold.as_str()) {
        Some(t) => t,
        None => {
            return Slot::Disabled(name, ConfigError::BadThreshold);
        },
    };
    let mode = match read_mode(&cert_file) {
        Some(m) => m,
        None => {
            return Slot::Disabled(name, ConfigError::BadMode);
        },
    };
    match &log_file {
        Some(f) => {
            if read_mode(f).is_none() {
                return Slot::Disabled(name, ConfigError::BadMode);
            }
        },
        None => {},
    }
    Slot::Enabled(
        CertificateEntry {
            name: name,
            domains: domains,
            server: server,
            challenge_type: challenge_type,
            dns_type: dns_type,
            threshold: threshold,
            cert_type: cert_type,
            cert_content: cert_content,
            cert_file: cert_file,
            mode: mode,
            reload_type: reload_type,
            log_file: log_file,
        },
    )
}

/// The server table that a configuration holds: empty where it names none.
pub open spec fn table_of(servers: Option<Vec<(String, AcmeServer)>>) -> Seq<(String, AcmeServer)> {
    match servers {
        Some(v) => v@,
        None => Seq::empty(),
    }
}

/// The slots of all outputs: each output's own, in order.
pub open spec fn slots_of(outputs: Seq<(String, CentOutput)>, table: Seq<(String, AcmeServer)>)
    -> Seq<Slot> {
    Seq::new(outputs.len(), |i: int| slot_of(outputs[i].0, outputs[i].1, table))
}

/// Loads a configuration. It is refused as a whole only for its check
/// interval. Each output is checked by itself: one that fails is disabled
/// with its reason, and the others are loaded as if it were not there.
pub fn load_config(config: ConfigFile) -> (r: Result<LoadedConfig, ConfigError>)
    ensures
        r is Ok <==> interval_of(config.check_interval) is Some,
        r matches Err(e) ==> e == ConfigError::BadInterval,
        r matches Ok(loaded) ==> {
            &&& loaded.user_id == config.user_id
            &&& Some(loaded.check_interval) == interval_of(config.check_interval)
            &&& loaded.log_file == config.log_file
            &&& loaded.slots@ == slots_of(config.cert_output@, table_of(config.acme_servers))
        },
{
    let ConfigFile { user_id, check_interval, log_file, acme_servers, cert_output } = config;
    let interval = match &check_interval {
        None => DEFAULT_CHECK_INTERVAL,
        Some(text) => match parse_duration(text.as_str()) {
            Some(d) => {
                if d < 1 {
                    return Err(ConfigError::BadInterval);
                }
                d
            },
            None => {
                return Err(ConfigError::BadInterval);
            },
        },
    };
    let table = match acme_servers {
        Some(v) => v,
        None => Vec::new(),
    };
    let ghost outputs = cert_output@;
    let mut slots: Vec<Slot> = Vec::new();
    for item in it: cert_output
        invariant
            it.seq() == outputs,
            slots@.len() == it.index(),
            forall|j: int|
                0 <= j < it.index() ==> slots@[j] == slot_of(
                    (#[trigger] outputs[j]).0,
                    outputs[j].1,
                    table@,
                ),
    {
        let (name, output) = item;
        slots.push(load_entry(name, output, &table));
    }
    proof {
        assert(slots@ =~= slots_of(outputs, table@));
    }
    Ok(LoadedConfig { user_id: user_id, check_interval: interval, log_file: log_file, slots: slots })
}

impl CertificateEntry {
    /// What holds of every entry that was loaded: it names a domain, its
    /// encoding can hold its content, and its challenge can be solved with
    /// its resolver.
    pub open spec fn wf(self) -> bool {
        &&& self.domains@.len() > 0
        &&& self.cert_type.holds(self.cert_content)
        &&& self.challenge_type is Dns01 ==> self.dns_type.writable()
    }
}

/// Whatever the configuration, an entry that is enabled is sound, and an
/// output is disabled exactly when a check refuses it, with that check's
/// reason.
pub proof fn law_enabled_entries_are_sound(
    name: String,
    output: CentOutput,
    table: Seq<(String, AcmeServer)>,
)
    ensures
        slot_of(name, output, table) matches Slot::Enabled(e) ==> e.wf() && e.name == name,
        slot_of(name, output, table) is Disabled <==> entry_error(output, table) is Some,
        output.cert_type is PKCS12 && !(output.cert_content is CertKey || output.cert_content
            is CertChainKey) ==> slot_of(name, output, table) is Disabled,
        output.challenge_type is Dns01 && output.dns_type is SystemDNS ==> slot_of(
            name,
            output,
            table,
        ) is Disabled,
        output.from_server matches ConfigAcmeServer::Ref(wanted) && find_server(table, wanted@)
            is None ==> slot_of(name, output, table) is Disabled,
{
}

/// Outputs do not bear on each other: what becomes of one is the same
/// whatever the others are.
pub proof fn law_outputs_independent(
    a: Seq<(String, CentOutput)>,
    b: Seq<(String, CentOutput)>,
    i: int,
    table: Seq<(String, AcmeServer)>,
)
    requires
        0 <= i < a.len(),
        0 <= i < b.len(),
        a[i] == b[i],
    ensures
        slots_of(a, table)[i] == slots_of(b, table)[i],
{
}

} // verus!
