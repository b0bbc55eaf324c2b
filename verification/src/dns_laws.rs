//! Laws of names, addresses, secrets, queries and the opening of the challenge zone.

use dns_update::DnsUpdater;
use vstd::prelude::*;
use vstd::string::*;

use crate::addr::{addr_form, host_part, last_place, port_part};
use crate::bindings::{
    ascii_name, lossy_text, lower_byte, name_fqdn, name_labels, name_text, relaxed_name, same_labels,
    signer_parts, tsig_updater,
};
use crate::config::DnsConfig;
use crate::dns::{
    base_name, delegation_name, key_bytes, reads_cname, reads_txt, secret_readable, stage, txt_name,
    ChallengeDns, Lookup, Reading, Stage,
};
use crate::encoding::{base64_char, base64_text};
use crate::query::{
    algorithm_named, first_target, matching, owner_stage, qualified, query_stage, txt_text,
    txt_texts, Answer, Exchange, Querier, QueryStage, Rdata, Reply, RecordKind, TsigAlgorithm,
};
use crate::text::{
    after_first, begins, decimal, ends, first_at, is_white, lemma_first_at_unique, lower, occurs,
    port_value, stands_at, text_opt, texts, trimmed, PortFault,
};
use crate::text_laws::{digits, lemma_decimal, lemma_port, lemma_trimmed_is, lemma_white};

verus! {

// ---- names ---------------------------------------------------------------

/// The challenges for a domain are answered at the domain, a dot and the zone, and those
/// for a wildcard at the name without its first label, a dot and the zone. The CNAME that
/// leads there stands at `_acme-challenge` and the same name.
pub proof fn lemma_challenge_name(domain: Seq<char>, rest: Seq<char>, zone: Seq<char>)
    ensures
        txt_name(seq!['*', '.'] + rest, zone) == rest + seq!['.'] + zone,
        delegation_name(base_name(seq!['*', '.'] + rest)) == "_acme-challenge."@ + rest,
        !(domain.len() >= 2 && domain[0] == '*' && domain[1] == '.') ==> txt_name(domain, zone)
            == domain + seq!['.'] + zone && delegation_name(base_name(domain))
            == "_acme-challenge."@ + domain,
{
    reveal_strlit("*.");
    reveal_strlit(".");
    let wild = seq!['*', '.'] + rest;
    assert("*."@ =~= seq!['*', '.']);
    assert("."@ =~= seq!['.']);
    assert(wild.subrange(0, 2) =~= "*."@);
    assert(wild.skip(2) =~= rest);
    if begins(domain, "*."@) {
        assert(domain.subrange(0, 2)[0] == domain[0]);
        assert(domain.subrange(0, 2)[1] == domain[1]);
    }
}

/// Where the challenges for an identifier are answered.
pub open spec fn answer_name(identifier: Seq<char>, zone: Seq<char>) -> Seq<char> {
    (if identifier.len() >= 2 && identifier[0] == '*' && identifier[1] == '.' {
        identifier.skip(2)
    } else {
        identifier
    }) + seq!['.'] + zone
}

/// The challenges for an identifier are answered at the identifier without its wildcard
/// label, a dot and the zone.
pub proof fn lemma_answer_name(identifier: Seq<char>, zone: Seq<char>)
    ensures
        txt_name(identifier, zone) == answer_name(identifier, zone),
{
    if identifier.len() >= 2 && identifier[0] == '*' && identifier[1] == '.' {
        assert(identifier =~= seq!['*', '.'] + identifier.skip(2));
        lemma_challenge_name(identifier, identifier.skip(2), zone);
    } else {
        lemma_challenge_name(identifier, Seq::empty(), zone);
    }
}

/// A name that is asked for is fully qualified: it ends in one dot more than it may have,
/// and no more is added to one that is.
pub proof fn lemma_qualified(name: Seq<char>)
    ensures
        qualified(name).len() > 0 && qualified(name).last() == '.',
        name.len() > 0 && name.last() == '.' ==> qualified(name) == name,
        !(name.len() > 0 && name.last() == '.') ==> qualified(name) == name.push('.'),
{
    reveal_strlit(".");
    assert("."@ =~= seq!['.']);
    if ends(name, "."@) {
        assert(name.subrange(name.len() - 1, name.len() as int)[0] == name.last());
    } else if name.len() > 0 && name.last() == '.' {
        assert(name.subrange(name.len() - 1, name.len() as int) =~= "."@);
    }
    assert(name + "."@ =~= name.push('.'));
}

// ---- addresses -----------------------------------------------------------

/// No white space stands at either end.
pub open spec fn tight(s: Seq<char>) -> bool {
    s.len() > 0 ==> !is_white(s[0]) && !is_white(s.last())
}

proof fn lemma_tight(s: Seq<char>)
    requires
        tight(s),
    ensures
        trimmed(s) == s,
{
    let none = Seq::<char>::empty();
    lemma_trimmed_is(none, s, none);
    assert(none + s + none =~= s);
}

/// Behind a scheme without a colon, the mark of a scheme stands first where it ends.
proof fn lemma_mark(scheme: Seq<char>, rest: Seq<char>)
    requires
        !scheme.contains(':'),
    ensures
        occurs(scheme + "://"@ + rest, "://"@),
        after_first(scheme + "://"@ + rest, "://"@) == rest,
{
    reveal_strlit("://");
    let s = scheme + "://"@ + rest;
    let n = scheme.len() as int;
    assert(s.subrange(n, n + 3) =~= "://"@);
    assert(stands_at(s, "://"@, n));
    assert forall|j: int| 0 <= j < n implies !stands_at(s, "://"@, j) by {
        assert(s[j] == scheme[j]);
        if stands_at(s, "://"@, j) {
            assert(s.subrange(j, j + 3)[0] == s[j]);
        }
    }
    let k = choose|k: int| first_at(s, "://"@, k);
    lemma_first_at_unique(s, "://"@, n, k);
    assert(s.subrange(n + 3, s.len() as int) =~= rest);
}

/// A bare host gets the scheme tcp and the port 53; a host with a port gets the scheme
/// and keeps its port; and an address with a scheme and a port stays as it is.
pub proof fn lemma_addr(host: Seq<char>, port: Seq<char>, scheme: Seq<char>)
    requires
        tight(host),
        !host.contains(':'),
    ensures
        addr_form(host) == "tcp://"@ + host + ":53"@,
        tight(host + seq![':'] + port) && !occurs(host + seq![':'] + port, "://"@) ==> addr_form(
            host + seq![':'] + port,
        ) == "tcp://"@ + (host + seq![':'] + port),
        tight(scheme + "://"@ + (host + seq![':'] + port)) && !scheme.contains(':') ==> addr_form(
            scheme + "://"@ + (host + seq![':'] + port),
        ) == scheme + "://"@ + (host + seq![':'] + port),
{
    reveal_strlit("://");
    reveal_strlit("tcp://");
    reveal_strlit("tcp");
    assert("tcp://"@ =~= "tcp"@ + "://"@);
    lemma_tight(host);
    if occurs(host, "://"@) {
        let i = choose|i: int| stands_at(host, "://"@, i);
        assert(host.subrange(i, i + 3)[0] == host[i]);
        assert(host.contains(':'));
    }
    lemma_mark("tcp"@, host);
    let pair = host + seq![':'] + port;
    assert(pair[host.len() as int] == ':');
    assert(pair.contains(':'));
    if tight(pair) && !occurs(pair, "://"@) {
        lemma_tight(pair);
        lemma_mark("tcp"@, pair);
    }
    let whole = scheme + "://"@ + pair;
    if tight(whole) && !scheme.contains(':') {
        lemma_tight(whole);
        lemma_mark(scheme, pair);
    }
}

/// The host of an address stands between its scheme and its last colon, and the port
/// behind that.
pub proof fn lemma_addr_parts(scheme: Seq<char>, host: Seq<char>, port: Seq<char>)
    requires
        !scheme.contains(':'),
        !port.contains(':'),
    ensures
        host_part(scheme + "://"@ + (host + seq![':'] + port)) == host,
        port_part(scheme + "://"@ + (host + seq![':'] + port)) == port,
{
    let rest = host + seq![':'] + port;
    lemma_mark(scheme, rest);
    let n = host.len() as int;
    assert(rest[n] == ':');
    assert forall|j: int| n < j < rest.len() implies rest[j] != ':' by {
        assert(rest[j] == port[j - n - 1]);
    }
    let k = last_place(rest, ':');
    assert(k == n);
    assert(rest.take(n) =~= host);
    assert(rest.skip(n + 1) =~= port);
}

proof fn lemma_default_port()
    ensures
        port_value("53"@) == Ok::<u16, PortFault>(53u16),
        !"53"@.contains(':'),
{
    reveal_strlit("53");
    reveal_with_fuel(decimal, 2);
    assert(decimal(53) =~= "53"@);
    lemma_port("53"@, 53);
}

/// What is looked up for a bare host is that host at port 53.
pub proof fn lemma_bare_host(host: Seq<char>)
    requires
        tight(host),
        !host.contains(':'),
    ensures
        host_part(addr_form(host)) == host,
        port_value(port_part(addr_form(host))) == Ok::<u16, PortFault>(53u16),
{
    reveal_strlit("tcp://");
    reveal_strlit("://");
    reveal_strlit("tcp");
    reveal_strlit(":53");
    reveal_strlit("53");
    lemma_addr(host, Seq::empty(), Seq::empty());
    assert("tcp://"@ + host + ":53"@ =~= "tcp"@ + "://"@ + (host + seq![':'] + "53"@));
    lemma_default_port();
    lemma_addr_parts("tcp"@, host, "53"@);
}

proof fn lemma_no_mark(host: Seq<char>, port: Seq<char>)
    requires
        !host.contains(':'),
        digits(port),
    ensures
        !occurs(host + seq![':'] + port, "://"@),
{
    reveal_strlit("://");
    let pair = host + seq![':'] + port;
    if occurs(pair, "://"@) {
        let i = choose|i: int| stands_at(pair, "://"@, i);
        let three = pair.subrange(i, i + 3);
        assert(three[0] == pair[i] && three[1] == pair[i + 1]);
        if i < host.len() {
            assert(host[i] == ':');
        } else if i == host.len() {
            assert(pair[i + 1] == port[0]);
        } else {
            assert(pair[i] == port[i - host.len() - 1]);
        }
    }
}

proof fn lemma_split(host: Seq<char>, port: Seq<char>)
    requires
        host.len() > 0,
        tight(host),
        !host.contains(':'),
        digits(port),
    ensures
        host_part(addr_form(host + seq![':'] + port)) == host,
        port_part(addr_form(host + seq![':'] + port)) == port,
{
    let pair = host + seq![':'] + port;
    lemma_no_mark(host, port);
    lemma_white(port.last());
    assert(pair.last() == port.last());
    assert(pair[0] == host[0]);
    lemma_addr(host, port, Seq::empty());
    assert("tcp://"@ + pair == "tcp"@ + "://"@ + pair && !"tcp"@.contains(':')) by {
        reveal_strlit("tcp://");
        reveal_strlit("://");
        reveal_strlit("tcp");
        assert("tcp://"@ =~= "tcp"@ + "://"@);
    }
    lemma_addr_parts("tcp"@, host, port);
}

/// What is looked up for a host with a port is that host at that port.
pub proof fn lemma_host_with_port(host: Seq<char>, port: u16)
    requires
        host.len() > 0,
        tight(host),
        !host.contains(':'),
    ensures
        host_part(addr_form(host + seq![':'] + decimal(port as nat))) == host,
        port_value(port_part(addr_form(host + seq![':'] + decimal(port as nat)))) == Ok::<
            u16,
            PortFault,
        >(port),
{
    lemma_decimal(port as nat);
    lemma_port(Seq::empty(), port);
    lemma_split(host, decimal(port as nat));
}

// ---- secrets -------------------------------------------------------------

/// The characters of base64 are the letters, the digits, plus and slash, in this order.
pub proof fn lemma_base64_alphabet(n: int)
    requires
        0 <= n < 64,
    ensures
        base64_char(n)
            == "ABCDEFGHIJKLMNOPQRSTUVWXYZabcdefghijklmnopqrstuvwxyz0123456789+/"@[n],
{
    reveal_strlit("ABCDEFGHIJKLMNOPQRSTUVWXYZabcdefghijklmnopqrstuvwxyz0123456789+/");
}

/// Three bytes are written as the four digits, to the base 64, of the number that they
/// are to the base 256; what is left at the end is filled up with zeros and marked by
/// equals signs.
pub proof fn lemma_base64_groups(b: Seq<u8>, x: u8, y: u8, z: u8, p: int, q: int, r: int, s: int)
    requires
        0 <= p < 64,
        0 <= q < 64,
        0 <= r < 64,
        0 <= s < 64,
        x * 65536 + y * 256 + z == p * 262144 + q * 4096 + r * 64 + s,
    ensures
        base64_text(Seq::empty()) == Seq::<char>::empty(),
        base64_text(seq![x, y, z] + b) == seq![
            base64_char(p),
            base64_char(q),
            base64_char(r),
            base64_char(s),
        ] + base64_text(b),
        z == 0 ==> base64_text(seq![x, y]) == seq![
            base64_char(p),
            base64_char(q),
            base64_char(r),
            '=',
        ],
        y == 0 && z == 0 ==> base64_text(seq![x]) == seq![
            base64_char(p),
            base64_char(q),
            '=',
            '=',
        ],
{
    assert((seq![x, y, z] + b).skip(3) =~= b);
    assert(p == x / 4 && q == x % 4 * 16 + y / 16 && r == y % 16 * 4 + z / 64 && s == z % 64);
}

// ---- opening -------------------------------------------------------------

/// An open challenge zone asks the update server first and always, the resolver for what
/// the world sees where one is configured, and is otherwise as configured. It signs, where
/// it does, with the configured key: the bytes whose base64 notation the secret is, white
/// space around it apart.
pub proof fn lemma_opened(
    dns: ChallengeDns,
    cfg: DnsConfig,
    server: Seq<char>,
    resolver: Seq<char>,
)
    requires
        dns.opened_for(cfg, server, resolver),
        secret_readable(cfg),
    ensures
        dns.master.addr@ == server,
        cfg.resolver is Some ==> dns.verify.addr@ == resolver && dns.verify_is_resolver,
        cfg.resolver is None ==> dns.verify.addr@ == server && !dns.verify_is_resolver,
        dns.zone@ == cfg.challenge_zone@,
        dns.ttl == cfg.ttl,
        dns.propagation_wait_secs == cfg.propagation_wait_secs,
        dns.signed <==> cfg.tsig_secret is Some,
        dns.master.signer is Some ==> cfg.tsig_secret is Some && base64_text(
            signer_parts(dns.master.signer->0).0,
        ) == trimmed(cfg.tsig_secret->0@) && signer_parts(dns.master.signer->0).3 == 300,
        dns.verify.signer is Some ==> cfg.tsig_secret is Some && base64_text(
            signer_parts(dns.verify.signer->0).0,
        ) == trimmed(cfg.tsig_secret->0@) && signer_parts(dns.verify.signer->0).3 == 300,
        dns.master.signer is Some ==> signer_parts(dns.master.signer->0).1 == algorithm_named(
            cfg.tsig_algorithm@,
        )->0 && signer_parts(dns.master.signer->0).2 == ascii_name(cfg.tsig_key@)->Ok_0,
        dns.verify.signer is Some ==> signer_parts(dns.verify.signer->0).1 == algorithm_named(
            cfg.tsig_algorithm@,
        )->0 && signer_parts(dns.verify.signer->0).2 == ascii_name(cfg.tsig_key@)->Ok_0,
        cfg.tsig_secret is Some ==> exists|key: Seq<u8>| #[trigger]
            base64_text(key) == trimmed(cfg.tsig_secret->0@) && tsig_updater(
                "tcp://"@ + server,
                cfg.tsig_key@,
                key,
                algorithm_named(cfg.tsig_algorithm@)->0,
            ) == Ok::<DnsUpdater, Seq<char>>(dns.updater),
{
    if cfg.tsig_secret is Some {
        let key = key_bytes(cfg);
        assert(base64_text(key) == trimmed(cfg.tsig_secret->0@));
    }
}

/// An algorithm is known by its name in upper or lower case.
pub proof fn lemma_algorithms(s: Seq<char>)
    ensures
        algorithm_named(lower(s)) == algorithm_named(s),
        algorithm_named(s) == Some(TsigAlgorithm::HmacSha1) ==> lower(s) == "hmac-sha1"@,
        algorithm_named(s) == Some(TsigAlgorithm::HmacSha224) ==> lower(s) == "hmac-sha224"@,
        algorithm_named(s) == Some(TsigAlgorithm::HmacSha256) ==> lower(s) == "hmac-sha256"@,
        algorithm_named(s) == Some(TsigAlgorithm::HmacSha384) ==> lower(s) == "hmac-sha384"@,
        algorithm_named(s) == Some(TsigAlgorithm::HmacSha512) ==> lower(s) == "hmac-sha512"@,
        algorithm_named(s) is None ==> lower(s) != "hmac-sha1"@ && lower(s) != "hmac-sha224"@
            && lower(s) != "hmac-sha256"@ && lower(s) != "hmac-sha384"@ && lower(s)
            != "hmac-sha512"@,
{
    assert(lower(lower(s)) =~= lower(s));
}

/// The first look-up is for the configured server and the second for the configured
/// resolver, each at its host and port; a secret that is no base64 is refused before
/// either, and a host that cannot be found is refused by its name.
pub proof fn lemma_opening(
    cfg: DnsConfig,
    server: Option<Lookup>,
    resolver: Option<Lookup>,
)
    ensures
        stage(cfg, server, resolver) matches Stage::NeedServer(host, port) ==> {
            &&& server is None
            &&& secret_readable(cfg)
            &&& host == host_part(addr_form(cfg.server@))
            &&& port_value(port_part(addr_form(cfg.server@))) == Ok::<u16, PortFault>(
                port,
            )
        },
        stage(cfg, server, resolver) matches Stage::NeedResolver(host, port) ==> {
            &&& server is Some && resolver is None && cfg.resolver is Some
            &&& host == host_part(addr_form(cfg.resolver->0@))
            &&& port_value(port_part(addr_form(cfg.resolver->0@))) == Ok::<
                u16,
                PortFault,
            >(port)
        },
        stage(cfg, server, resolver) is Open ==> {
            &&& secret_readable(cfg)
            &&& server is Some && server->0 is Found
            &&& cfg.resolver is Some ==> resolver is Some && resolver->0 is Found
        },
        !secret_readable(cfg) ==> stage(cfg, server, resolver) is Failed,
{
}

// ---- queries -------------------------------------------------------------

/// The records that answer a query are those of the asked type whose name is the asked
/// one, up to the case of ASCII letters, in the order of the reply: a reply in two parts
/// is answered by the answers of its parts.
pub proof fn lemma_matching(
    a: Seq<Answer>,
    b: Seq<Answer>,
    labels: Seq<Seq<u8>>,
    fqdn: bool,
    kind: RecordKind,
)
    ensures
        matching(a + b, labels, fqdn, kind) == matching(a, labels, fqdn, kind) + matching(
            b,
            labels,
            fqdn,
            kind,
        ),
        matching(Seq::empty(), labels, fqdn, kind) == Seq::<Rdata>::empty(),
        a.len() == 1 ==> matching(a, labels, fqdn, kind) == (if (match kind {
            RecordKind::Txt => a[0].data is Txt,
            RecordKind::Cname => a[0].data is Cname,
        }) && name_fqdn(a[0].name) == fqdn && name_labels(a[0].name).len() == labels.len() && (
        forall|i: int|
            0 <= i < labels.len() ==> same_label(#[trigger] labels[i], name_labels(a[0].name)[i])) {
            seq![a[0].data]
        } else {
            Seq::empty()
        }),
    decreases b.len(),
{
    if b.len() == 0 {
        assert(a + b =~= a);
    } else {
        lemma_matching(a, b.drop_last(), labels, fqdn, kind);
        assert((a + b).drop_last() =~= a + b.drop_last());
        assert((a + b).last() == b.last());
        let front = matching(a, labels, fqdn, kind);
        let more = matching(b.drop_last(), labels, fqdn, kind);
        assert((front + more).push(b.last().data) =~= front + more.push(b.last().data));
    }
    if a.len() == 1 {
        reveal_with_fuel(matching, 2);
        let one = a[0];
        let own = name_labels(one.name);
        assert(a.drop_last() =~= Seq::empty());
        if own.len() == labels.len() {
            assert forall|i: int| 0 <= i < labels.len() implies (same_label(
                #[trigger] labels[i],
                own[i],
            ) <==> own[i].map_values(|x: u8| lower_byte(x))
                == labels[i].map_values(|x: u8| lower_byte(x))) by {
                lemma_same_label(labels[i], own[i]);
            }
            if same_labels(own, labels) {
                assert forall|i: int| 0 <= i < labels.len() implies same_label(
                    #[trigger] labels[i],
                    own[i],
                ) by {
                    assert(own[i].map_values(|x: u8| lower_byte(x))
                        == labels[i].map_values(|x: u8| lower_byte(x)));
                }
            }
            if forall|i: int| 0 <= i < labels.len() ==> same_label(#[trigger] labels[i], own[i]) {
                assert forall|i: int| 0 <= i < own.len() implies (#[trigger] own[i]).map_values(
                    |x: u8| lower_byte(x),
                ) == labels[i].map_values(|x: u8| lower_byte(x)) by {
                    assert(same_label(labels[i], own[i]));
                }
            }
        }
        assert(Seq::<Rdata>::empty().push(one.data) =~= seq![one.data]);
    }
}

/// Two labels are the same up to the case of ASCII letters.
pub open spec fn same_label(a: Seq<u8>, b: Seq<u8>) -> bool {
    a.len() == b.len() && forall|i: int| 0 <= i < a.len() ==> same_byte(#[trigger] a[i], b[i])
}

/// Two bytes are the same up to the case of ASCII letters.
pub open spec fn same_byte(x: u8, y: u8) -> bool {
    x == y || (65 <= x <= 90 && y == x + 32) || (65 <= y <= 90 && x == y + 32)
}

proof fn lemma_same_label(a: Seq<u8>, b: Seq<u8>)
    ensures
        same_label(a, b) <==> b.map_values(|x: u8| lower_byte(x))
            == a.map_values(|x: u8| lower_byte(x)),
{
    let x = a.map_values(|x: u8| lower_byte(x));
    let y = b.map_values(|x: u8| lower_byte(x));
    if same_label(a, b) {
        assert forall|i: int| 0 <= i < a.len() implies x[i] == y[i] by {
            assert(same_byte(a[i], b[i]));
        }
        assert(x =~= y);
    }
    if x == y {
        assert(x.len() == a.len() && y.len() == b.len());
        assert forall|i: int| 0 <= i < a.len() implies same_byte(#[trigger] a[i], b[i]) by {
            assert(x[i] == y[i]);
        }
    }
}

/// A reply is read only where its code says that there was no error or no such name, and
/// a query that was not answered has failed.
pub proof fn lemma_reply_read(
    addr: Seq<char>,
    name: Seq<char>,
    kind: RecordKind,
    exchange: Option<Exchange>,
)
    ensures
        query_stage(addr, name, kind, exchange) matches QueryStage::Found(records) ==> {
            &&& exchange is Some && exchange->0 is Replied
            &&& exchange->0->Replied_0.code == 0 || exchange->0->Replied_0.code == 3
        },
        query_stage(addr, name, kind, exchange) is Send ==> exchange is None,
{
}

/// The values of TXT records come in their order, each as its strings in a row, and other
/// records give none.
pub proof fn lemma_txt_texts(a: Seq<Rdata>, b: Seq<Rdata>)
    ensures
        txt_texts(a + b) == txt_texts(a) + txt_texts(b),
        txt_texts(Seq::empty()) == Seq::<Seq<char>>::empty(),
        a.len() == 1 ==> txt_texts(a) == (match a[0] {
            Rdata::Txt(chunks) => seq![txt_text(chunks@)],
            _ => Seq::empty(),
        }),
    decreases b.len(),
{
    if b.len() == 0 {
        assert(a + b =~= a);
    } else {
        lemma_txt_texts(a, b.drop_last());
        assert((a + b).drop_last() =~= a + b.drop_last());
        assert((a + b).last() == b.last());
        match b.last() {
            Rdata::Txt(chunks) => {
                let front = txt_texts(a);
                let more = txt_texts(b.drop_last());
                assert((front + more).push(txt_text(chunks@)) =~= front + more.push(
                    txt_text(chunks@),
                ));
            },
            _ => {},
        }
    }
    if a.len() == 1 {
        reveal_with_fuel(txt_texts, 2);
        assert(a.drop_last() =~= Seq::empty());
        match a[0] {
            Rdata::Txt(chunks) => {
                assert(Seq::<Seq<char>>::empty().push(txt_text(chunks@)) =~= seq![
                    txt_text(chunks@),
                ]);
            },
            _ => {},
        }
    }
}

/// The strings of a TXT record are read one by one and put in a row.
pub proof fn lemma_txt_text(a: Seq<Vec<u8>>, b: Seq<Vec<u8>>)
    ensures
        txt_text(a + b) == txt_text(a) + txt_text(b),
        a.len() == 1 ==> txt_text(a) == lossy_text(a[0]@),
    decreases b.len(),
{
    if b.len() == 0 {
        assert(a + b =~= a);
        assert(txt_text(a) + txt_text(b) =~= txt_text(a));
    } else {
        lemma_txt_text(a, b.drop_last());
        assert((a + b).drop_last() =~= a + b.drop_last());
        assert((a + b).last() == b.last());
        let last = lossy_text(b.last()@);
        assert(txt_text(a) + txt_text(b.drop_last()) + last =~= txt_text(a) + (txt_text(
            b.drop_last(),
        ) + last));
    }
    if a.len() == 1 {
        reveal_with_fuel(txt_text, 2);
        assert(a.drop_last() =~= Seq::empty());
        assert(txt_text(a) =~= lossy_text(a[0]@));
    }
}

/// The target that is read is that of the first CNAME record, and there is none only where
/// there is no such record.
pub proof fn lemma_first_target(records: Seq<Rdata>, i: int)
    requires
        0 <= i < records.len(),
        records[i] is Cname,
        forall|j: int| 0 <= j < i ==> !(#[trigger] records[j] is Cname),
    ensures
        first_target(records) == Some(
            name_text(name_labels(records[i]->Cname_0), name_fqdn(records[i]->Cname_0)),
        ),
    decreases i,
{
    if i > 0 {
        assert(!(records[0] is Cname));
        let rest = records.drop_first();
        assert forall|j: int| 0 <= j < i - 1 implies !(#[trigger] rest[j] is Cname) by {
            assert(rest[j] == records[j + 1]);
        }
        assert(rest[i - 1] == records[i]);
        lemma_first_target(rest, i - 1);
    }
}

/// Without a CNAME record there is no target.
pub proof fn lemma_no_target(records: Seq<Rdata>)
    requires
        forall|j: int| 0 <= j < records.len() ==> !(#[trigger] records[j] is Cname),
    ensures
        first_target(records) is None,
    decreases records.len(),
{
    if records.len() > 0 {
        assert(!(records[0] is Cname));
        let rest = records.drop_first();
        assert forall|j: int| 0 <= j < rest.len() implies !(#[trigger] rest[j] is Cname) by {
            assert(rest[j] == records[j + 1]);
        }
        lemma_no_target(rest);
    }
}

/// A reply whose code says that there was no error or no such name is read, and any other
/// fails the query.
pub proof fn lemma_reply_owed(
    addr: Seq<char>,
    name: Seq<char>,
    kind: RecordKind,
    labels: Seq<Seq<u8>>,
    fqdn: bool,
    reply: Reply,
)
    ensures
        reply.code == 0 || reply.code == 3 ==> owner_stage(
            addr,
            name,
            kind,
            Ok((labels, fqdn)),
            Some(Exchange::Replied(reply)),
        ) == QueryStage::Found(matching(reply.answers@, labels, fqdn, kind)),
        reply.code != 0 && reply.code != 3 ==> owner_stage(
            addr,
            name,
            kind,
            Ok((labels, fqdn)),
            Some(Exchange::Replied(reply)),
        ) is Failed,
        owner_stage(addr, name, kind, Ok((labels, fqdn)), None) == QueryStage::Send(labels, fqdn),
{
}

/// TXT values are asked of the server that is meant, by that name and as TXT records, and
/// what is read comes from its reply.
pub proof fn lemma_reads_txt(
    r: Reading<'_, Vec<String>>,
    q: Querier,
    name: Seq<char>,
    exchange: Option<Exchange>,
)
    requires
        reads_txt(r, q, name, exchange),
    ensures
        r matches Reading::Send { to, name: n, kind } ==> *to == q && kind is Txt && relaxed_name(
            qualified(name),
        ) == Ok::<(Seq<Seq<u8>>, bool), Seq<char>>((name_labels(n), name_fqdn(n))) && exchange
            is None,
        r matches Reading::Done(Ok(values)) ==> exchange is Some && exchange->0 is Replied
            && relaxed_name(qualified(name)) is Ok && texts(values@) == txt_texts(
            matching(
                exchange->0->Replied_0.answers@,
                relaxed_name(qualified(name))->Ok_0.0,
                relaxed_name(qualified(name))->Ok_0.1,
                RecordKind::Txt,
            ),
        ),
{
}

/// A CNAME target is asked of the server that is meant, by that name and as a CNAME record,
/// and what is read comes from its reply.
pub proof fn lemma_reads_cname(
    r: Reading<'_, Option<String>>,
    q: Querier,
    name: Seq<char>,
    exchange: Option<Exchange>,
)
    requires
        reads_cname(r, q, name, exchange),
    ensures
        r matches Reading::Send { to, name: n, kind } ==> *to == q && kind is Cname && relaxed_name(
            qualified(name),
        ) == Ok::<(Seq<Seq<u8>>, bool), Seq<char>>((name_labels(n), name_fqdn(n))) && exchange
            is None,
        r matches Reading::Done(Ok(target)) ==> exchange is Some && exchange->0 is Replied
            && relaxed_name(qualified(name)) is Ok && text_opt(target) == first_target(
            matching(
                exchange->0->Replied_0.answers@,
                relaxed_name(qualified(name))->Ok_0.0,
                relaxed_name(qualified(name))->Ok_0.1,
                RecordKind::Cname,
            ),
        ),
{
}

} // verus!
