//! Verification queries.
//!
//! Updates are always TSIG-signed, so on a multi-view DNSVault/BIND they route to
//! the view that knows the key. Plain queries route by SOURCE ADDRESS: from inside
//! the network they land in the internal view, which may not carry the challenge
//! zone at all. Two knobs fix this: `dns.sign_queries` signs verification queries
//! with the same key so they follow the update's view routing, and `dns.resolver`
//! points queries at a different server entirely (e.g. a public resolver).

use hickory_proto::rr::{Name, TSigner};
use vstd::prelude::*;
use vstd::string::*;

use crate::bindings::{
    ascii_name, lossy_text, name_fqdn, name_labels, name_text, name_to_text, new_signer,
    parse_ascii, parse_relaxed, relaxed_name, same_labels, same_name, signer_parts, utf8_lossy,
};
use crate::failure::Failure;
use crate::text::{
    cat2, cat3, cat4, ends, found_at, lower, lowercase, same, text_opt, texts,
};

verus! {

/// The TSIG algorithms that a configuration may name.
#[derive(Clone, Copy, PartialEq, Eq, Structural, Debug)]
pub enum TsigAlgorithm {
    HmacSha1,
    HmacSha224,
    HmacSha256,
    HmacSha384,
    HmacSha512,
}

/// The algorithms for which a message can be signed.
pub open spec fn mac_supported(a: TsigAlgorithm) -> bool {
    a is HmacSha256 || a is HmacSha384 || a is HmacSha512
}

/// The algorithm that `s` names, in upper or lower case.
pub open spec fn algorithm_named(s: Seq<char>) -> Option<TsigAlgorithm> {
    if lower(s) == "hmac-sha1"@ {
        Some(TsigAlgorithm::HmacSha1)
    } else if lower(s) == "hmac-sha224"@ {
        Some(TsigAlgorithm::HmacSha224)
    } else if lower(s) == "hmac-sha256"@ {
        Some(TsigAlgorithm::HmacSha256)
    } else if lower(s) == "hmac-sha384"@ {
        Some(TsigAlgorithm::HmacSha384)
    } else if lower(s) == "hmac-sha512"@ {
        Some(TsigAlgorithm::HmacSha512)
    } else {
        None
    }
}

/// The algorithm that `s` names, or `s` in lower case where it names none.
pub(crate) fn find_algorithm(s: &str) -> (r: Result<TsigAlgorithm, String>)
    ensures
        match r {
            Ok(a) => algorithm_named(s@) == Some(a),
            Err(other) => algorithm_named(s@) is None && other@ == lower(s@),
        },
{
    let name = lowercase(s);
    if same(name.as_str(), "hmac-sha1") {
        Ok(TsigAlgorithm::HmacSha1)
    } else if same(name.as_str(), "hmac-sha224") {
        Ok(TsigAlgorithm::HmacSha224)
    } else if same(name.as_str(), "hmac-sha256") {
        Ok(TsigAlgorithm::HmacSha256)
    } else if same(name.as_str(), "hmac-sha384") {
        Ok(TsigAlgorithm::HmacSha384)
    } else if same(name.as_str(), "hmac-sha512") {
        Ok(TsigAlgorithm::HmacSha512)
    } else {
        Err(name)
    }
}

/// The algorithm with which queries are signed.
pub fn hickory_algorithm(s: &str) -> (r: Result<TsigAlgorithm, Failure>)
    ensures
        match (r, algorithm_named(s@)) {
            (Ok(a), Some(b)) => a == b,
            (Err(f), None) => f@ == seq!["unsupported tsig_algorithm '"@ + lower(s@) + "'"@],
            _ => false,
        },
{
    match find_algorithm(s) {
        Ok(a) => Ok(a),
        Err(other) => Err(Failure::new(cat3("unsupported tsig_algorithm '", other.as_str(), "'"))),
    }
}

/// Where queries go, and with what they are signed.
pub struct Querier {
    /// The server's socket address.
    pub addr: String,
    pub signer: Option<TSigner>,
}

/// Why no signer can be made for a key name and an algorithm.
pub open spec fn signer_failure(name: Seq<char>, algorithm: Seq<char>) -> Option<Seq<Seq<char>>> {
    match (algorithm_named(algorithm), ascii_name(name)) {
        (None, _) => Some(seq!["unsupported tsig_algorithm '"@ + lower(algorithm) + "'"@]),
        (Some(_), Err(e)) => Some(seq!["bad key name: "@ + e]),
        (Some(a), Ok(_)) => if mac_supported(a) {
            None
        } else {
            Some(seq!["cannot build query signer: "@ + "Tsig unsupported mac algorithm"@])
        },
    }
}

/// Whether `signer` signs with the given key, within five minutes of clock difference.
pub open spec fn signs_with(
    signer: Option<TSigner>,
    name: Seq<char>,
    secret: Seq<u8>,
    algorithm: Seq<char>,
) -> bool {
    &&& signer is Some
    &&& algorithm_named(algorithm) is Some
    &&& ascii_name(name) is Ok
    &&& signer_parts(signer->0) == (
        secret,
        algorithm_named(algorithm)->0,
        ascii_name(name)->Ok_0,
        300u16,
    )
}

/// The fully qualified form of a name: a dot at the end is added where there is none.
pub open spec fn qualified(name: Seq<char>) -> Seq<char> {
    if ends(name, "."@) {
        name
    } else {
        name + "."@
    }
}

/// The types of record that are asked for.
#[derive(Clone, Copy, PartialEq, Eq, Structural, Debug)]
pub enum RecordKind {
    Txt,
    Cname,
}

/// What a record holds.
pub enum Rdata {
    /// The character strings of a TXT record.
    Txt(Vec<Vec<u8>>),
    /// The target of a CNAME record.
    Cname(Name),
    /// Any other record.
    Other,
}

/// A record in an answer: the name that it belongs to, and what it holds.
pub struct Answer {
    pub name: Name,
    pub data: Rdata,
}

/// A reply: its response code, by number and in words, and its answers.
pub struct Reply {
    pub code: u16,
    pub code_text: String,
    pub answers: Vec<Answer>,
}

/// What came of sending a query.
pub enum Exchange {
    /// The server could not be reached, and why.
    Unreachable(String),
    /// No reply came, and why.
    Unanswered(String),
    /// The reply.
    Replied(Reply),
}

/// An exchange as the contracts speak of it.
pub open spec fn exchange_opt(e: Option<&Exchange>) -> Option<Exchange> {
    match e {
        Some(x) => Some(*x),
        None => None,
    }
}

/// How far a query has come.
pub enum Query<'a> {
    /// The records at this name are to be asked for.
    Send(Name),
    /// What the records hold.
    Found(Vec<&'a Rdata>),
    /// The query failed.
    Failed(Failure),
}

/// How far a query has come, as the contracts speak of it.
pub enum QueryStage {
    Send(Seq<Seq<u8>>, bool),
    Found(Seq<Rdata>),
    Failed(Seq<Seq<char>>),
}

impl<'a> View for Query<'a> {
    type V = QueryStage;

    open spec fn view(&self) -> QueryStage {
        match *self {
            Query::Send(name) => QueryStage::Send(name_labels(name), name_fqdn(name)),
            Query::Found(records) => QueryStage::Found(records@.map_values(|d: &Rdata| *d)),
            Query::Failed(f) => QueryStage::Failed(f@),
        }
    }
}

/// The records of the given type at a name, in the order of the answer.
pub open spec fn matching(
    answers: Seq<Answer>,
    labels: Seq<Seq<u8>>,
    fqdn: bool,
    kind: RecordKind,
) -> Seq<Rdata>
    decreases answers.len(),
{
    if answers.len() == 0 {
        Seq::empty()
    } else {
        let front = matching(answers.drop_last(), labels, fqdn, kind);
        if answers.last().answers_to(labels, fqdn, kind) {
            front.push(answers.last().data)
        } else {
            front
        }
    }
}

impl Answer {
    /// Whether this record is of the given type and belongs to a name.
    pub open spec fn answers_to(self, labels: Seq<Seq<u8>>, fqdn: bool, kind: RecordKind) -> bool {
        &&& match kind {
            RecordKind::Txt => self.data is Txt,
            RecordKind::Cname => self.data is Cname,
        }
        &&& name_fqdn(self.name) == fqdn
        &&& same_labels(name_labels(self.name), labels)
    }

    /// Whether this record is of the given type and belongs to `owner`.
    pub fn belongs(&self, owner: &Name, kind: RecordKind) -> (r: bool)
        ensures
            r == self.answers_to(name_labels(*owner), name_fqdn(*owner), kind),
    {
        let of_kind = match (&self.data, kind) {
            (Rdata::Txt(_), RecordKind::Txt) => true,
            (Rdata::Cname(_), RecordKind::Cname) => true,
            _ => false,
        };
        of_kind && same_name(&self.name, owner)
    }
}

/// How far a query for the records of type `kind` at `name` comes, with what was made
/// of the name, and what came of sending the query where it was sent.
pub open spec fn owner_stage(
    addr: Seq<char>,
    name: Seq<char>,
    kind: RecordKind,
    owner: Result<(Seq<Seq<u8>>, bool), Seq<char>>,
    exchange: Option<Exchange>,
) -> QueryStage {
    match owner {
        Err(e) => QueryStage::Failed(seq!["bad name "@ + name + ": "@ + e]),
        Ok((labels, fqdn)) => match exchange {
            None => QueryStage::Send(labels, fqdn),
            Some(Exchange::Unreachable(cause)) => QueryStage::Failed(
                seq!["cannot connect to "@ + addr + ": "@ + cause@],
            ),
            Some(Exchange::Unanswered(cause)) => QueryStage::Failed(
                seq!["query to "@ + addr + " failed: "@ + cause@],
            ),
            Some(Exchange::Replied(reply)) => if code_accepted(reply.code) {
                QueryStage::Found(matching(reply.answers@, labels, fqdn, kind))
            } else {
                QueryStage::Failed(seq!["server "@ + addr + " answered "@ + reply.code_text@])
            },
        },
    }
}

/// How far a query for the records of type `kind` at `name` comes, with what came of
/// sending it where it was sent.
pub open spec fn query_stage(
    addr: Seq<char>,
    name: Seq<char>,
    kind: RecordKind,
    exchange: Option<Exchange>,
) -> QueryStage {
    owner_stage(addr, name, kind, relaxed_name(qualified(name)), exchange)
}

/// The response codes under which a reply is read: no error, and no such name.
pub open spec fn code_accepted(code: u16) -> bool {
    code == 0 || code == 3
}

impl Querier {
    /// A querier for the server at `addr`, which signs with the key where one is given
    /// as its name, its bytes and its algorithm.
    pub fn new(addr: &str, key: Option<(&str, Vec<u8>, &str)>) -> (r: Result<Querier, Failure>)
        ensures
            match (key, r) {
                (None, Ok(q)) => q.addr@ == addr@ && q.signer is None,
                (Some((name, secret, algorithm)), Ok(q)) => {
                    &&& signer_failure(name@, algorithm@) is None
                    &&& q.addr@ == addr@
                    &&& signs_with(q.signer, name@, secret@, algorithm@)
                },
                (Some((name, _, algorithm)), Err(f)) => signer_failure(name@, algorithm@) == Some(
                    f@,
                ),
                (None, Err(_)) => false,
            },
    {
        match key {
            Some((name, secret, algorithm)) => {
                let algorithm = match hickory_algorithm(algorithm) {
                    Ok(a) => a,
                    Err(f) => return Err(f),
                };
                Self::with_key(addr, parse_ascii(name), secret, algorithm)
            },
            None => Ok(Querier { addr: addr.to_owned(), signer: None }),
        }
    }

    /// A querier for the server at `addr`, which signs with the key whose name was read
    /// as `name`.
    pub fn with_key(
        addr: &str,
        name: Result<Name, String>,
        secret: Vec<u8>,
        algorithm: TsigAlgorithm,
    ) -> (r: Result<Querier, Failure>)
        ensures
            match r {
                Ok(q) => {
                    &&& name is Ok
                    &&& mac_supported(algorithm)
                    &&& q.addr@ == addr@
                    &&& q.signer is Some
                    &&& signer_parts(q.signer->0) == (
                        secret@,
                        algorithm,
                        name_labels(name->Ok_0),
                        300u16,
                    )
                },
                Err(f) => match name {
                    Err(e) => f@ == seq!["bad key name: "@ + e@],
                    Ok(_) => !mac_supported(algorithm) && f@ == seq![
                        "cannot build query signer: "@ + "Tsig unsupported mac algorithm"@,
                    ],
                },
            },
    {
        let name = match name {
            Ok(n) => n,
            Err(e) => return Err(Failure::new(cat2("bad key name: ", e.as_str()))),
        };
        match new_signer(secret, algorithm, name, 300) {
            Ok(s) => Ok(Querier { addr: addr.to_owned(), signer: Some(s) }),
            Err(e) => Err(Failure::new(cat2("cannot build query signer: ", e.as_str()))),
        }
    }

    /// Asks for the records of type `kind` at `name`. Without an exchange it says what
    /// to send; the caller sends it and calls again with what came of that.
    pub fn query<'a>(&self, name: &str, kind: RecordKind, exchange: Option<&'a Exchange>) -> (r:
        Query<'a>)
        ensures
            r@ == query_stage(
                self.addr@,
                name@,
                kind,
                exchange_opt(exchange),
            ),
    {
        let n: usize = name.unicode_len();
        proof {
            reveal_strlit(".");
        }
        let fqdn = if n > 0 && found_at(name, ".", n - 1) {
            name.to_owned()
        } else {
            cat2(name, ".")
        };
        self.query_owner(name, kind, parse_relaxed(fqdn.as_str()), exchange)
    }

    /// Asks for the records of type `kind` at `name`, of which `owner` was made.
    pub fn query_owner<'a>(
        &self,
        name: &str,
        kind: RecordKind,
        owner: Result<Name, String>,
        exchange: Option<&'a Exchange>,
    ) -> (r: Query<'a>)
        ensures
            r@ == owner_stage(
                self.addr@,
                name@,
                kind,
                match owner {
                    Ok(n) => Ok((name_labels(n), name_fqdn(n))),
                    Err(e) => Err(e@),
                },
                exchange_opt(exchange),
            ),
    {
        let owner = match owner {
            Ok(owner) => owner,
            Err(e) => return Query::Failed(
                Failure::new(cat4("bad name ", name, ": ", e.as_str())),
            ),
        };
        match exchange {
            None => Query::Send(owner),
            Some(Exchange::Unreachable(cause)) => Query::Failed(
                Failure::new(
                    cat4("cannot connect to ", self.addr.as_str(), ": ", cause.as_str()),
                ),
            ),
            Some(Exchange::Unanswered(cause)) => Query::Failed(
                Failure::new(
                    cat4("query to ", self.addr.as_str(), " failed: ", cause.as_str()),
                ),
            ),
            Some(Exchange::Replied(reply)) => if reply.code != 0 && reply.code != 3 {
                Query::Failed(
                    Failure::new(
                        cat4("server ", self.addr.as_str(), " answered ", reply.code_text.as_str()),
                    ),
                )
            } else {
                Query::Found(reply.select(&owner, kind))
            },
        }
    }
}

impl Reply {
    /// What the records of type `kind` at `owner` hold, in the order of the reply.
    pub fn select<'a>(&'a self, owner: &Name, kind: RecordKind) -> (r: Vec<&'a Rdata>)
        ensures
            r@.map_values(|d: &Rdata| *d) == matching(
                self.answers@,
                name_labels(*owner),
                name_fqdn(*owner),
                kind,
            ),
    {
        let all = &self.answers;
        let ghost labels = name_labels(*owner);
        let ghost fqdn = name_fqdn(*owner);
        let mut out: Vec<&'a Rdata> = Vec::new();
        let mut i: usize = 0;
        assert(out@.map_values(|d: &Rdata| *d) =~= Seq::empty());
        assert(all@.take(0) =~= Seq::empty());
        while i < all.len()
            invariant
                i <= all@.len(),
                labels == name_labels(*owner),
                fqdn == name_fqdn(*owner),
                out@.map_values(|d: &Rdata| *d) == matching(
                    all@.take(i as int),
                    labels,
                    fqdn,
                    kind,
                ),
            decreases all@.len() - i,
        {
            assert(all@.take(i + 1).drop_last() =~= all@.take(i as int));
            let ghost before = out@;
            if all[i].belongs(owner, kind) {
                out.push(&all[i].data);
                assert(out@.map_values(|d: &Rdata| *d) =~= before.map_values(|d: &Rdata| *d).push(
                    all@[i as int].data,
                ));
            }
            i = i + 1;
        }
        assert(all@.take(i as int) =~= all@);
        out
    }
}

/// The text of a TXT record: its character strings in a row, each read as UTF-8 with
/// whatever is not UTF-8 replaced.
pub open spec fn txt_text(chunks: Seq<Vec<u8>>) -> Seq<char>
    decreases chunks.len(),
{
    if chunks.len() == 0 {
        Seq::empty()
    } else {
        txt_text(chunks.drop_last()) + lossy_text(chunks.last()@)
    }
}

/// The texts of the TXT records among `records`, in their order.
pub open spec fn txt_texts(records: Seq<Rdata>) -> Seq<Seq<char>>
    decreases records.len(),
{
    if records.len() == 0 {
        Seq::empty()
    } else {
        match records.last() {
            Rdata::Txt(chunks) => txt_texts(records.drop_last()).push(txt_text(chunks@)),
            _ => txt_texts(records.drop_last()),
        }
    }
}

/// The target of the first CNAME record among `records`.
pub open spec fn first_target(records: Seq<Rdata>) -> Option<Seq<char>>
    decreases records.len(),
{
    if records.len() == 0 {
        None
    } else {
        match records[0] {
            Rdata::Cname(target) => Some(name_text(name_labels(target), name_fqdn(target))),
            _ => first_target(records.drop_first()),
        }
    }
}

/// The text of a TXT record.
fn txt_value(chunks: &Vec<Vec<u8>>) -> (r: String)
    ensures
        r@ == txt_text(chunks@),
{
    let mut out = String::new();
    let mut i: usize = 0;
    assert(chunks@.take(0) =~= Seq::empty());
    while i < chunks.len()
        invariant
            i <= chunks@.len(),
            out@ == txt_text(chunks@.take(i as int)),
        decreases chunks@.len() - i,
    {
        assert(chunks@.take(i + 1).drop_last() =~= chunks@.take(i as int));
        out.append(utf8_lossy(chunks[i].as_slice()).as_str());
        i = i + 1;
    }
    assert(chunks@.take(i as int) =~= chunks@);
    out
}

/// The texts of the TXT records among `records`, in their order.
pub fn txt_record_texts(records: &Vec<&Rdata>) -> (r: Vec<String>)
    ensures
        texts(r@) == txt_texts(records@.map_values(|d: &Rdata| *d)),
{
    let mut out: Vec<String> = Vec::new();
    let mut i: usize = 0;
    let ghost all = records@.map_values(|d: &Rdata| *d);
    assert(all.take(0) =~= Seq::empty());
    assert(texts(out@) =~= Seq::empty());
    while i < records.len()
        invariant
            i <= records@.len(),
            all == records@.map_values(|d: &Rdata| *d),
            texts(out@) == txt_texts(all.take(i as int)),
        decreases records@.len() - i,
    {
        assert(all.take(i + 1).drop_last() =~= all.take(i as int));
        let ghost before = out@;
        let record: &Rdata = records[i];
        match record {
            Rdata::Txt(chunks) => {
                out.push(txt_value(chunks));
                assert(texts(out@) =~= texts(before).push(txt_text(chunks@)));
            },
            _ => {},
        }
        i = i + 1;
    }
    assert(all.take(i as int) =~= all);
    out
}

/// The target of the first CNAME record among `records`.
pub fn cname_record_target(records: &Vec<&Rdata>) -> (r: Option<String>)
    ensures
        text_opt(r) == first_target(records@.map_values(|d: &Rdata| *d)),
{
    let ghost all = records@.map_values(|d: &Rdata| *d);
    let mut i: usize = 0;
    assert(all.skip(0) =~= all);
    while i < records.len()
        invariant
            i <= records@.len(),
            all == records@.map_values(|d: &Rdata| *d),
            first_target(all) == first_target(all.skip(i as int)),
        decreases records@.len() - i,
    {
        assert(all.skip(i as int).drop_first() =~= all.skip(i + 1));
        let record: &Rdata = records[i];
        match record {
            Rdata::Cname(target) => {
                return Some(name_to_text(target));
            },
            _ => {},
        }
        i = i + 1;
    }
    None
}

} // verus!
