//! The challenge zone: the names in it, the connection to it, and what is written
//! to it and read from it.

use dns_update::DnsUpdater;
use hickory_proto::rr::Name;
use vstd::prelude::*;
use vstd::string::*;

use crate::addr::{
    addr_form, fault_text, host_part, normalize_addr, port_part, resolve_addr, Endpoint,
};
use crate::bindings::{
    base64_error, decode_base64, name_fqdn, name_labels, new_updater, tsig_updater,
};
use crate::config::DnsConfig;
use crate::encoding::{base64_bytes, base64_text, is_base64, lemma_base64_injective};
use crate::failure::Failure;
use crate::query::{
    algorithm_named, cname_record_target, exchange_opt, find_algorithm, first_target, query_stage,
    signer_failure, signs_with, txt_record_texts, txt_texts, Exchange, Querier, Query,
    QueryStage, RecordKind, TsigAlgorithm,
};
use crate::text::{
    begins, cat2, cat3, cat4, ends, has_prefix, lower, lower_char, lowercase, port_value, slice, strip_back,
    text_opt, texts, trim, trim_end_char, trimmed,
};

verus! {

// ---- names ---------------------------------------------------------------

/// An identifier without the wildcard label at its front.
pub open spec fn base_name(identifier: Seq<char>) -> Seq<char> {
    if begins(identifier, "*."@) {
        identifier.skip(2)
    } else {
        identifier
    }
}

/// An identifier without the wildcard label at its front.
pub fn strip_wildcard(identifier: &str) -> (r: String)
    ensures
        r@ == base_name(identifier@),
{
    proof {
        reveal_strlit("*.");
    }
    if has_prefix(identifier, "*.") {
        slice(identifier, 2, identifier.unicode_len())
    } else {
        identifier.to_owned()
    }
}

/// The name in the challenge zone for an identifier.
pub open spec fn txt_name(identifier: Seq<char>, zone: Seq<char>) -> Seq<char> {
    base_name(identifier) + "."@ + zone
}

/// TXT record name in the challenge zone for an ACME identifier.
/// The real zone carries `_acme-challenge.<base> CNAME <this name>`.
pub fn challenge_txt_name(identifier: &str, zone: &str) -> (r: String)
    ensures
        r@ == txt_name(identifier@, zone@),
{
    cat3(strip_wildcard(identifier).as_str(), ".", zone)
}

/// The name in the real zone that points into the challenge zone.
pub open spec fn delegation_name(base: Seq<char>) -> Seq<char> {
    "_acme-challenge."@ + base
}

/// A name as it is compared: no dots at the end, in lower case.
pub open spec fn normal_name(name: Seq<char>) -> Seq<char> {
    lower(strip_back(name, '.'))
}

/// A name as it is compared: no dots at the end, in lower case.
pub fn normalize(name: &str) -> (r: String)
    ensures
        r@ == normal_name(name@),
{
    lowercase(trim_end_char(name, '.').as_str())
}

/// The algorithm with which updates are signed.
pub fn parse_algorithm(s: &str) -> (r: Result<TsigAlgorithm, Failure>)
    ensures
        match (r, algorithm_named(s@)) {
            (Ok(a), Some(b)) => a == b,
            (Err(f), None) => f@ == seq![unsupported_text(s@)],
            _ => false,
        },
{
    match find_algorithm(s) {
        Ok(a) => Ok(a),
        Err(other) => Err(
            Failure::new(
                cat3(
                    "unsupported tsig_algorithm '",
                    other.as_str(),
                    "' (use hmac-sha256, hmac-sha512, ...)",
                ),
            ),
        ),
    }
}

/// What a reader is told about an algorithm that is not known.
pub open spec fn unsupported_text(s: Seq<char>) -> Seq<char> {
    "unsupported tsig_algorithm '"@ + lower(s) + "' (use hmac-sha256, hmac-sha512, ...)"@
}

// ---- opening -------------------------------------------------------------

/// What came of looking up the socket address of a host.
#[derive(Debug)]
pub enum Lookup {
    /// A socket address.
    Found(String),
    /// The look-up failed, and why.
    Unresolvable(String),
    /// The host has no address.
    NoAddress,
}

/// A look-up as the contracts speak of it: a socket address, or why there is none.
pub open spec fn lookup_result(l: Lookup, host: Seq<char>) -> Result<Seq<char>, Seq<Seq<char>>> {
    match l {
        Lookup::Found(sock) => Ok(sock@),
        Lookup::Unresolvable(cause) => Err(
            seq!["cannot resolve hostname '"@ + host + "'"@, cause@],
        ),
        Lookup::NoAddress => Err(seq!["'"@ + host + "' resolved to no addresses"@]),
    }
}

/// The socket address that a look-up found.
fn found(l: Lookup, host: &str) -> (r: Result<String, Failure>)
    ensures
        match (r, lookup_result(l, host@)) {
            (Ok(sock), Ok(s)) => sock@ == s,
            (Err(f), Err(e)) => f@ == e,
            _ => false,
        },
{
    match l {
        Lookup::Found(sock) => Ok(sock),
        Lookup::Unresolvable(cause) => Err(
            Failure::caused(cat3("cannot resolve hostname '", host, "'"), cause),
        ),
        Lookup::NoAddress => Err(Failure::new(cat3("'", host, "' resolved to no addresses"))),
    }
}

/// How far the opening of the challenge zone has come.
pub enum Opening {
    /// The address of the update server is needed.
    NeedServer(Endpoint),
    /// The address of the resolver is needed.
    NeedResolver(Endpoint),
    /// The challenge zone is open.
    Open(ChallengeDns),
    /// The challenge zone cannot be opened.
    Failed(Failure),
}

/// How far the opening has come, as the contracts speak of it.
pub enum Stage {
    NeedServer(Seq<char>, u16),
    NeedResolver(Seq<char>, u16),
    Open,
    Failed(Seq<Seq<char>>),
}

/// The secret in a configuration decodes where there is one.
pub open spec fn secret_readable(cfg: DnsConfig) -> bool {
    cfg.tsig_secret is Some ==> is_base64(trimmed(cfg.tsig_secret->0@))
}

/// The key in a configuration; where there is none, a dummy that signs nothing.
pub open spec fn key_bytes(cfg: DnsConfig) -> Seq<u8> {
    match cfg.tsig_secret {
        Some(secret) => base64_bytes(trimmed(secret@)),
        None => Seq::new(32, |i: int| 0u8),
    }
}

/// Whether queries on the verification path are signed: as the configuration says, and
/// where it says nothing, unless they go to a resolver. Without a secret they are not.
pub open spec fn queries_signed(cfg: DnsConfig) -> bool {
    &&& cfg.tsig_secret is Some
    &&& match cfg.sign_queries {
        Some(sign) => sign,
        None => cfg.resolver is None,
    }
}

/// Whether queries to the update server are signed: as the configuration says, and where
/// it says nothing, they are. Without a secret they are not.
pub open spec fn confirmations_signed(cfg: DnsConfig) -> bool {
    &&& cfg.tsig_secret is Some
    &&& cfg.sign_queries is Some ==> cfg.sign_queries->0
}

/// What a reader is told about an address whose port cannot be read.
pub open spec fn port_failure(addr: Seq<char>) -> Seq<Seq<char>> {
    seq!["bad port in '"@ + addr + "'"@, fault_text(port_value(port_part(addr))->Err_0)]
}

/// How far the opening comes with the look-ups that were made so far.
pub open spec fn stage(cfg: DnsConfig, server: Option<Lookup>, resolver: Option<Lookup>) -> Stage {
    let addr = addr_form(cfg.server@);
    if !secret_readable(cfg) {
        Stage::Failed(
            seq![
                "dns.tsig_secret is not valid base64"@,
                base64_error(trimmed(cfg.tsig_secret->0@)),
            ],
        )
    } else if port_value(port_part(addr)) is Err {
        Stage::Failed(port_failure(addr))
    } else if server is None {
        Stage::NeedServer(host_part(addr), port_value(port_part(addr))->Ok_0)
    } else {
        match lookup_result(server->0, host_part(addr)) {
            Err(e) => Stage::Failed(e),
            Ok(sock) => stage_with_server(cfg, sock, resolver),
        }
    }
}

/// How far the opening comes once the update server's socket address is known.
pub open spec fn stage_with_server(
    cfg: DnsConfig,
    sock: Seq<char>,
    resolver: Option<Lookup>,
) -> Stage {
    match algorithm_named(cfg.tsig_algorithm@) {
        None => Stage::Failed(seq![unsupported_text(cfg.tsig_algorithm@)]),
        Some(algorithm) => match tsig_updater(
            "tcp://"@ + sock,
            cfg.tsig_key@,
            key_bytes(cfg),
            algorithm,
        ) {
            Err(e) => Stage::Failed(seq!["cannot create DNS updater: "@ + e]),
            Ok(_) => stage_with_updater(cfg, resolver),
        },
    }
}

/// How far the opening comes once there is an updater.
pub open spec fn stage_with_updater(cfg: DnsConfig, resolver: Option<Lookup>) -> Stage {
    match signer_failure(cfg.tsig_key@, cfg.tsig_algorithm@) {
        Some(e) if confirmations_signed(cfg) => Stage::Failed(e),
        _ => stage_of_resolver(cfg, resolver),
    }
}

/// How far the opening comes once updates can be signed and sent.
pub open spec fn stage_of_resolver(cfg: DnsConfig, resolver: Option<Lookup>) -> Stage {
    match cfg.resolver {
        None => Stage::Open,
        Some(r) => {
            let addr = addr_form(r@);
            if port_value(port_part(addr)) is Err {
                Stage::Failed(port_failure(addr))
            } else if resolver is None {
                Stage::NeedResolver(host_part(addr), port_value(port_part(addr))->Ok_0)
            } else {
                match lookup_result(resolver->0, host_part(addr)) {
                    Err(e) => Stage::Failed(e),
                    Ok(_) => Stage::Open,
                }
            }
        },
    }
}

/// The connection to the challenge zone.
pub struct ChallengeDns {
    pub updater: DnsUpdater,
    /// Always the update server: authoritative truth that a write landed.
    pub master: Querier,
    /// What the world sees: the resolver when configured, else the master.
    pub verify: Querier,
    pub verify_is_resolver: bool,
    pub zone: String,
    pub ttl: u32,
    pub propagation_wait_secs: u64,
    pub signed: bool,
}

/// Whether queries are signed with the key under its configured name, or not at all.
pub open spec fn signer_as(q: Querier, cfg: DnsConfig, key: Seq<u8>, signed: bool) -> bool {
    if signed {
        signs_with(q.signer, cfg.tsig_key@, key, cfg.tsig_algorithm@)
    } else {
        q.signer is None
    }
}

impl ChallengeDns {
    /// Whether this is the connection for a configuration and the socket addresses
    /// that were found for it.
    pub open spec fn opened_for(
        self,
        cfg: DnsConfig,
        server: Seq<char>,
        resolver: Seq<char>,
    ) -> bool {
        &&& algorithm_named(cfg.tsig_algorithm@) is Some
        &&& tsig_updater(
            "tcp://"@ + server,
            cfg.tsig_key@,
            key_bytes(cfg),
            algorithm_named(cfg.tsig_algorithm@)->0,
        ) == Ok::<DnsUpdater, Seq<char>>(self.updater)
        &&& self.queries_for(cfg, key_bytes(cfg), server, resolver)
    }

    /// Whether queries go out as a configuration says, to the socket addresses that were
    /// found for it, and the rest is as it says.
    pub open spec fn queries_for(
        self,
        cfg: DnsConfig,
        key: Seq<u8>,
        server: Seq<char>,
        resolver: Seq<char>,
    ) -> bool {
        &&& self.master.addr@ == server
        &&& signer_as(self.master, cfg, key, confirmations_signed(cfg))
        &&& self.verify.addr@ == (if cfg.resolver is Some {
            resolver
        } else {
            server
        })
        &&& signer_as(self.verify, cfg, key, queries_signed(cfg))
        &&& self.verify_is_resolver == (cfg.resolver is Some)
        &&& self.zone@ == cfg.challenge_zone@
        &&& self.ttl == cfg.ttl
        &&& self.propagation_wait_secs == cfg.propagation_wait_secs
        &&& self.signed == (cfg.tsig_secret is Some)
    }

    /// Opens the challenge zone, as far as the look-ups that were made so far permit:
    /// the caller makes the look-up that is asked for and calls again.
    ///
    /// Queries go out unsigned without a secret, and writes are refused then, so that
    /// read-only commands work before any credential exists.
    pub fn new(cfg: &DnsConfig, server: Option<Lookup>, resolver: Option<Lookup>) -> (r: Opening)
        ensures
            match (r, stage(*cfg, server, resolver)) {
                (Opening::NeedServer(e), Stage::NeedServer(host, port)) => e.host@ == host
                    && e.port == port,
                (Opening::NeedResolver(e), Stage::NeedResolver(host, port)) => e.host@ == host
                    && e.port == port,
                (Opening::Open(dns), Stage::Open) => dns.opened_for(
                    *cfg,
                    server->0->Found_0@,
                    resolver->0->Found_0@,
                ),
                (Opening::Failed(f), Stage::Failed(e)) => f@ == e,
                _ => false,
            },
    {
        let key = match &cfg.tsig_secret {
            Some(secret) => {
                let text = trim(secret.as_str());
                match decode_base64(text.as_str()) {
                    Ok(bytes) => {
                        proof {
                            assert(base64_text(bytes@) == text@);
                            lemma_base64_injective(bytes@, base64_bytes(text@));
                        }
                        bytes
                    },
                    Err(e) => return Opening::Failed(
                        Failure::caused("dns.tsig_secret is not valid base64".to_owned(), e),
                    ),
                }
            },
            None => dummy_key(),
        };
        assert(key@ == key_bytes(*cfg));
        let endpoint = match resolve_addr(cfg.server_addr().as_str()) {
            Ok(e) => e,
            Err(f) => return Opening::Failed(f),
        };
        let sock = match server {
            None => return Opening::NeedServer(endpoint),
            Some(l) => match found(l, endpoint.host.as_str()) {
                Ok(sock) => sock,
                Err(f) => return Opening::Failed(f),
            },
        };
        Self::connect(cfg, key, sock, resolver)
    }

    /// The opening from the update server's socket address on.
    fn connect(
        cfg: &DnsConfig,
        key: Vec<u8>,
        sock: String,
        resolver: Option<Lookup>,
    ) -> (r: Opening)
        requires
            key@ == key_bytes(*cfg),
        ensures
            match (r, stage_with_server(*cfg, sock@, resolver)) {
                (Opening::NeedResolver(e), Stage::NeedResolver(host, port)) => e.host@ == host
                    && e.port == port,
                (Opening::Open(dns), Stage::Open) => dns.opened_for(
                    *cfg,
                    sock@,
                    resolver->0->Found_0@,
                ),
                (Opening::Failed(f), Stage::Failed(e)) => f@ == e,
                _ => false,
            },
    {
        let algorithm = match parse_algorithm(cfg.tsig_algorithm.as_str()) {
            Ok(a) => a,
            Err(f) => return Opening::Failed(f),
        };
        let url = cat2("tcp://", sock.as_str());
        let updater = new_updater(
            url.as_str(),
            cfg.tsig_key.as_str(),
            copy_bytes(&key),
            algorithm,
        );
        Self::with_updater(cfg, key, sock, updater, resolver)
    }

    /// The opening from the updater on, with the key and the update server's socket
    /// address.
    pub fn with_updater(
        cfg: &DnsConfig,
        key: Vec<u8>,
        sock: String,
        updater: Result<DnsUpdater, String>,
        resolver: Option<Lookup>,
    ) -> (r: Opening)
        ensures
            match (r, stage_with_updater(*cfg, resolver)) {
                (Opening::Failed(f), _) if updater is Err => f@ == seq![
                    "cannot create DNS updater: "@ + updater->Err_0@,
                ],
                (Opening::NeedResolver(e), Stage::NeedResolver(host, port)) => {
                    &&& updater is Ok
                    &&& e.host@ == host
                    &&& e.port == port
                },
                (Opening::Open(dns), Stage::Open) => {
                    &&& updater == Ok::<DnsUpdater, String>(dns.updater)
                    &&& dns.queries_for(*cfg, key@, sock@, resolver->0->Found_0@)
                },
                (Opening::Failed(f), Stage::Failed(e)) => f@ == e,
                _ => false,
            },
    {
        let updater = match updater {
            Ok(u) => u,
            Err(e) => return Opening::Failed(
                Failure::new(cat2("cannot create DNS updater: ", e.as_str())),
            ),
        };
        let signed = cfg.tsig_secret.is_some();
        let sign_master = match cfg.sign_queries {
            Some(s) => s,
            None => true,
        };
        let master_key = if sign_master && signed {
            Some((cfg.tsig_key.as_str(), copy_bytes(&key), cfg.tsig_algorithm.as_str()))
        } else {
            None
        };
        let master = match Querier::new(sock.as_str(), master_key) {
            Ok(q) => q,
            Err(f) => return Opening::Failed(f),
        };
        let (verify_sock, default_sign) = match &cfg.resolver {
            Some(r) => {
                let endpoint = match resolve_addr(normalize_addr(r.as_str()).as_str()) {
                    Ok(e) => e,
                    Err(f) => return Opening::Failed(f),
                };
                match resolver {
                    None => return Opening::NeedResolver(endpoint),
                    Some(l) => match found(l, endpoint.host.as_str()) {
                        Ok(s) => (s, false),
                        Err(f) => return Opening::Failed(f),
                    },
                }
            },
            None => (sock, true),
        };
        let sign = match cfg.sign_queries {
            Some(s) => s,
            None => default_sign,
        };
        let verify_key = if sign && signed {
            Some((cfg.tsig_key.as_str(), key, cfg.tsig_algorithm.as_str()))
        } else {
            None
        };
        let verify = match Querier::new(verify_sock.as_str(), verify_key) {
            Ok(q) => q,
            Err(f) => return Opening::Failed(f),
        };
        Opening::Open(
            ChallengeDns {
                updater,
                master,
                verify,
                verify_is_resolver: cfg.resolver.is_some(),
                zone: cfg.challenge_zone.clone(),
                ttl: cfg.ttl,
                propagation_wait_secs: cfg.propagation_wait_secs,
                signed,
            },
        )
    }

    /// Whether there is a secret to sign updates with.
    pub fn can_write(&self) -> (r: bool)
        ensures
            r == self.signed,
    {
        self.signed
    }

    /// Refuses where there is no secret.
    pub fn require_secret(&self) -> (r: Result<(), Failure>)
        ensures
            match r {
                Ok(_) => self.signed,
                Err(f) => !self.signed && f@ == no_secret(),
            },
    {
        if !self.signed {
            return Err(
                Failure::new(
                    "no TSIG secret configured — set dns.tsig_secret or DNSVCERT_TSIG_SECRET".to_owned(),
                ),
            );
        }
        Ok(())
    }
}

/// What a reader is told who has configured no secret.
pub open spec fn no_secret() -> Seq<Seq<char>> {
    seq!["no TSIG secret configured — set dns.tsig_secret or DNSVCERT_TSIG_SECRET"@]
}

/// A key that signs nothing.
fn dummy_key() -> (r: Vec<u8>)
    ensures
        r@ == Seq::new(32, |i: int| 0u8),
{
    let mut v: Vec<u8> = Vec::new();
    let mut i: usize = 0;
    while i < 32
        invariant
            i <= 32,
            v@ == Seq::new(i as nat, |i: int| 0u8),
        decreases 32 - i,
    {
        v.push(0);
        i = i + 1;
        assert(v@ =~= Seq::new(i as nat, |i: int| 0u8));
    }
    v
}

/// The same bytes again.
fn copy_bytes(b: &Vec<u8>) -> (r: Vec<u8>)
    ensures
        r@ == b@,
{
    let mut v: Vec<u8> = Vec::new();
    let mut i: usize = 0;
    while i < b.len()
        invariant
            i <= b@.len(),
            v@ == b@.take(i as int),
        decreases b@.len() - i,
    {
        v.push(b[i]);
        i = i + 1;
        assert(v@ =~= b@.take(i as int));
    }
    assert(b@.take(i as int) =~= b@);
    v
}

// ---- writing -------------------------------------------------------------

/// What is done to the TXT records at a name.
#[derive(Clone, Copy, PartialEq, Eq, Structural, Debug)]
pub enum UpdateKind {
    /// Records are added to those that are there.
    Add,
    /// The records that are there are replaced.
    Replace,
}

/// A signed update of the TXT records at one name in the challenge zone.
#[derive(Debug)]
pub struct Update {
    pub kind: UpdateKind,
    pub name: String,
    pub ttl: u32,
    pub values: Vec<String>,
    pub zone: String,
}

impl Update {
    /// What a reader is told about an update that the server refused.
    pub open spec fn refusal(self, cause: Seq<char>) -> Seq<char> {
        match self.kind {
            UpdateKind::Add => "TSIG update failed adding TXT "@ + self.name@ + ": "@ + cause,
            UpdateKind::Replace => "TSIG update failed clearing TXT "@ + self.name@ + ": "@ + cause,
        }
    }

    /// The failure of an update that the server refused.
    pub fn failed(&self, cause: &str) -> (r: Failure)
        ensures
            r@ == seq![self.refusal(cause@)],
    {
        match self.kind {
            UpdateKind::Add => Failure::new(
                cat4("TSIG update failed adding TXT ", self.name.as_str(), ": ", cause),
            ),
            UpdateKind::Replace => Failure::new(
                cat4("TSIG update failed clearing TXT ", self.name.as_str(), ": ", cause),
            ),
        }
    }
}

impl ChallengeDns {
    /// Whether an update adds `value` to the TXT records at `name`.
    pub open spec fn adds(self, u: Update, name: Seq<char>, value: Seq<char>) -> bool {
        &&& u.kind is Add
        &&& u.name@ == name
        &&& u.ttl == self.ttl
        &&& texts(u.values@) == seq![value]
        &&& u.zone@ == self.zone@
    }

    /// Whether an update deletes all TXT records at `name`.
    pub open spec fn clears(self, u: Update, name: Seq<char>) -> bool {
        &&& u.kind is Replace
        &&& u.name@ == name
        &&& u.ttl == 0
        &&& texts(u.values@) == Seq::<Seq<char>>::empty()
        &&& u.zone@ == self.zone@
    }

    /// The update that adds `value` to the TXT records at `name`.
    pub fn add_txt(&self, name: &str, value: &str) -> (r: Result<Update, Failure>)
        ensures
            match r {
                Ok(u) => self.signed && self.adds(u, name@, value@),
                Err(f) => !self.signed && f@ == no_secret(),
            },
    {
        self.require_secret()?;
        let mut values: Vec<String> = Vec::new();
        values.push(value.to_owned());
        assert(texts(values@) =~= seq![value@]);
        Ok(
            Update {
                kind: UpdateKind::Add,
                name: name.to_owned(),
                ttl: self.ttl,
                values,
                zone: self.zone.clone(),
            },
        )
    }

    /// The update that deletes all TXT records at `name`.
    pub fn clear_txt(&self, name: &str) -> (r: Result<Update, Failure>)
        ensures
            match r {
                Ok(u) => self.signed && self.clears(u, name@),
                Err(f) => !self.signed && f@ == no_secret(),
            },
    {
        self.require_secret()?;
        let values: Vec<String> = Vec::new();
        assert(texts(values@) =~= Seq::<Seq<char>>::empty());
        Ok(
            Update {
                kind: UpdateKind::Replace,
                name: name.to_owned(),
                ttl: 0,
                values,
                zone: self.zone.clone(),
            },
        )
    }
}

// ---- reading -------------------------------------------------------------

/// What was read, as the contracts speak of it: texts, or why there are none.
pub open spec fn read_view(r: Result<Vec<String>, Failure>) -> Result<
    Seq<Seq<char>>,
    Seq<Seq<char>>,
> {
    match r {
        Ok(v) => Ok(texts(v@)),
        Err(f) => Err(f@),
    }
}

/// A CNAME target that was read, as the contracts speak of it.
pub open spec fn target_view(r: Result<Option<String>, Failure>) -> Result<
    Option<Seq<char>>,
    Seq<Seq<char>>,
> {
    match r {
        Ok(t) => Ok(text_opt(t)),
        Err(f) => Err(f@),
    }
}

/// How far a reading of records has come.
pub enum Reading<'a, T> {
    /// This is to be asked of this server.
    Send { to: &'a Querier, name: Name, kind: RecordKind },
    /// What was read.
    Done(Result<T, Failure>),
}

/// How far a reading of TXT values at `name` from `q` comes.
pub open spec fn reads_txt(
    r: Reading<'_, Vec<String>>,
    q: Querier,
    name: Seq<char>,
    exchange: Option<Exchange>,
) -> bool {
    match (r, query_stage(q.addr@, name, RecordKind::Txt, exchange)) {
        (Reading::Send { to, name: n, kind }, QueryStage::Send(labels, fqdn)) => {
            *to == q && name_labels(n) == labels && name_fqdn(n) == fqdn && kind is Txt
        },
        (Reading::Done(Ok(values)), QueryStage::Found(records)) => texts(values@) == txt_texts(
            records,
        ),
        (Reading::Done(Err(f)), QueryStage::Failed(e)) => f@ == seq![
            "TXT query for "@ + name + " failed: "@ + e[0],
        ],
        _ => false,
    }
}

/// How far a reading of the CNAME target at `name` from `q` comes.
pub open spec fn reads_cname(
    r: Reading<'_, Option<String>>,
    q: Querier,
    name: Seq<char>,
    exchange: Option<Exchange>,
) -> bool {
    match (r, query_stage(q.addr@, name, RecordKind::Cname, exchange)) {
        (Reading::Send { to, name: n, kind }, QueryStage::Send(labels, fqdn)) => {
            *to == q && name_labels(n) == labels && name_fqdn(n) == fqdn && kind is Cname
        },
        (Reading::Done(Ok(target)), QueryStage::Found(records)) => text_opt(target)
            == first_target(records),
        (Reading::Done(Err(f)), QueryStage::Failed(e)) => f@ == seq![
            "CNAME query for "@ + name + " failed: "@ + e[0],
        ],
        _ => false,
    }
}

impl ChallengeDns {
    /// TXT values as the update server itself answers them.
    pub fn txt_values<'a>(&'a self, name: &str, exchange: Option<&Exchange>) -> (r: Reading<
        'a,
        Vec<String>,
    >)
        ensures
            reads_txt(r, self.master, name@, exchange_opt(exchange)),
    {
        self.txt_values_via(&self.master, name, exchange)
    }

    /// TXT values as the verification path answers them.
    pub fn public_txt_values<'a>(&'a self, name: &str, exchange: Option<&Exchange>) -> (r: Reading<
        'a,
        Vec<String>,
    >)
        ensures
            reads_txt(r, self.verify, name@, exchange_opt(exchange)),
    {
        self.txt_values_via(&self.verify, name, exchange)
    }

    /// TXT values as the server behind `q` answers them.
    pub fn txt_values_via<'a>(
        &self,
        q: &'a Querier,
        name: &str,
        exchange: Option<&Exchange>,
    ) -> (r: Reading<'a, Vec<String>>)
        ensures
            reads_txt(r, *q, name@, exchange_opt(exchange)),
    {
        match q.query(name, RecordKind::Txt, exchange) {
            Query::Send(n) => Reading::Send { to: q, name: n, kind: RecordKind::Txt },
            Query::Found(records) => Reading::Done(Ok(txt_record_texts(&records))),
            Query::Failed(f) => Reading::Done(
                Err(
                    Failure::new(cat4("TXT query for ", name, " failed: ", f.message().as_str())),
                ),
            ),
        }
    }

    /// The CNAME target at `name` as the verification path answers it, if any.
    pub fn cname_target<'a>(&'a self, name: &str, exchange: Option<&Exchange>) -> (r: Reading<
        'a,
        Option<String>,
    >)
        ensures
            reads_cname(r, self.verify, name@, exchange_opt(exchange)),
    {
        match self.verify.query(name, RecordKind::Cname, exchange) {
            Query::Send(n) => Reading::Send { to: &self.verify, name: n, kind: RecordKind::Cname },
            Query::Found(records) => Reading::Done(Ok(cname_record_target(&records))),
            Query::Failed(f) => Reading::Done(
                Err(
                    Failure::new(cat4("CNAME query for ", name, " failed: ", f.message().as_str())),
                ),
            ),
        }
    }
}

// ---- laws ----------------------------------------------------------------

/// A wildcard and its base share one name in the challenge zone, so that one CNAME
/// covers both.
pub proof fn lemma_wildcard_shares_name(base: Seq<char>, zone: Seq<char>)
    requires
        !begins(base, "*."@),
    ensures
        base_name("*."@ + base) == base,
        txt_name("*."@ + base, zone) == txt_name(base, zone),
{
    reveal_strlit("*.");
    let wild = "*."@ + base;
    assert(wild.subrange(0, 2) =~= "*."@);
    assert(begins(wild, "*."@));
    assert(wild.skip(2) =~= base);
}

/// Every name for an identifier lies in the challenge zone.
pub proof fn lemma_name_in_zone(identifier: Seq<char>, zone: Seq<char>)
    ensures
        ends(txt_name(identifier, zone), "."@ + zone),
{
    let name = txt_name(identifier, zone);
    let tail = "."@ + zone;
    assert(name.subrange(name.len() - tail.len(), name.len() as int) =~= tail);
}

/// Identifiers with different bases have different names in the challenge zone.
pub proof fn lemma_names_differ(a: Seq<char>, b: Seq<char>, zone: Seq<char>)
    ensures
        txt_name(a, zone) == txt_name(b, zone) <==> base_name(a) == base_name(b),
{
    if txt_name(a, zone) == txt_name(b, zone) {
        let p = txt_name(a, zone);
        let q = txt_name(b, zone);
        assert(p.len() == base_name(a).len() + "."@.len() + zone.len());
        assert(q.len() == base_name(b).len() + "."@.len() + zone.len());
        assert(p.take(base_name(a).len() as int) =~= base_name(a));
        assert(q.take(base_name(b).len() as int) =~= base_name(b));
    }
}

proof fn lemma_lower_strip(name: Seq<char>)
    ensures
        lower(strip_back(name, '.')) == strip_back(lower(name), '.'),
    decreases name.len(),
{
    if name.len() > 0 && name.last() == '.' {
        lemma_lower_strip(name.drop_last());
        assert(lower(name).drop_last() =~= lower(name.drop_last()));
    } else if name.len() > 0 {
        assert(lower(name).last() == lower_char(name.last()));
    }
}

proof fn lemma_strip_twice(name: Seq<char>)
    ensures
        strip_back(strip_back(name, '.'), '.') == strip_back(name, '.'),
    decreases name.len(),
{
    if name.len() > 0 && name.last() == '.' {
        lemma_strip_twice(name.drop_last());
    }
}

/// Names are compared without regard to case and to a dot at the end, and a name as
/// it is compared stays as it is.
pub proof fn lemma_normal_name(name: Seq<char>)
    ensures
        normal_name(normal_name(name)) == normal_name(name),
        normal_name(name.push('.')) == normal_name(name),
        normal_name(lower(name)) == normal_name(name),
{
    assert(lower(lower(name)) =~= lower(name));
    lemma_lower_strip(name);
    lemma_lower_strip(lower(name));
    lemma_lower_strip(strip_back(name, '.'));
    lemma_strip_twice(name);
    lemma_strip_twice(lower(name));
    assert(name.push('.').drop_last() =~= name);
}

/// Opening asks for at most two look-ups: with both made it succeeds or fails, and
/// without a resolver in the configuration the second is not asked for.
pub proof fn lemma_opening_settles(
    cfg: DnsConfig,
    server: Option<Lookup>,
    resolver: Option<Lookup>,
)
    ensures
        server is Some ==> !(stage(cfg, server, resolver) is NeedServer),
        resolver is Some || cfg.resolver is None ==> !(stage(cfg, server, resolver)
            is NeedResolver),
{
}

/// Where nothing is said about signing, verification queries are signed unless they
/// go to a resolver; what is said about it overrides either, for those that confirm TXT
/// records and for all others; and without a secret nothing is signed and nothing can be
/// written.
pub proof fn lemma_signing(
    dns: ChallengeDns,
    cfg: DnsConfig,
    server: Seq<char>,
    resolver: Seq<char>,
)
    requires
        dns.opened_for(cfg, server, resolver),
    ensures
        cfg.tsig_secret is None ==> !dns.signed && dns.master.signer is None && dns.verify.signer
            is None,
        cfg.tsig_secret is Some ==> dns.signed,
        cfg.tsig_secret is Some && cfg.sign_queries is None ==> dns.master.signer is Some && (
        dns.verify.signer is Some <==> cfg.resolver is None),
        cfg.tsig_secret is Some && cfg.sign_queries is Some ==> (dns.master.signer is Some
            <==> cfg.sign_queries->0) && (dns.verify.signer is Some <==> cfg.sign_queries->0),
{
}

} // verus!
