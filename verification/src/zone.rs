//! What updates do to the records that a server holds.

use vstd::prelude::*;

use crate::dns::{
    lemma_wildcard_shares_name, normal_name, txt_name, ChallengeDns, Update, UpdateKind,
};
use crate::text::{begins, texts};

verus! {

/// What records of one type at one name in one zone are found under. Names count
/// without regard to case and to a dot at the end.
pub struct RecordKey {
    pub zone: Seq<char>,
    pub name: Seq<char>,
    /// The number of the record type.
    pub rtype: u16,
}

/// The records that a server holds: under each key a set of values. Keys without records
/// are left out.
pub type Records = Map<RecordKey, Set<Seq<char>>>;

/// What the TXT records at a name in a zone are found under.
pub open spec fn txt_key(zone: Seq<char>, name: Seq<char>) -> RecordKey {
    RecordKey { zone: normal_name(zone), name: normal_name(name), rtype: 16 }
}

/// The values under a key.
pub open spec fn values_at(served: Records, key: RecordKey) -> Set<Seq<char>> {
    if served.contains_key(key) {
        served[key]
    } else {
        Set::empty()
    }
}

/// The records after an update that the server accepted. An update concerns the TXT
/// records at one name in one zone: it adds its values to those that are there, or puts
/// them in their place.
pub open spec fn updated(served: Records, u: Update) -> Records {
    let key = txt_key(u.zone@, u.name@);
    let values = match u.kind {
        UpdateKind::Add => values_at(served, key).union(texts(u.values@).to_set()),
        UpdateKind::Replace => texts(u.values@).to_set(),
    };
    if values =~= Set::empty() {
        served.remove(key)
    } else {
        served.insert(key, values)
    }
}

/// An update changes nothing but the TXT records at its name in its zone.
pub proof fn lemma_update_is_local(served: Records, u: Update, other: RecordKey)
    requires
        other != txt_key(u.zone@, u.name@),
    ensures
        values_at(updated(served, u), other) == values_at(served, other),
{
}

/// Adding a value keeps those that are there.
pub proof fn lemma_add(
    dns: ChallengeDns,
    served: Records,
    u: Update,
    name: Seq<char>,
    value: Seq<char>,
)
    requires
        dns.adds(u, name, value),
    ensures
        values_at(updated(served, u), txt_key(dns.zone@, name)) == values_at(
            served,
            txt_key(dns.zone@, name),
        ).insert(value),
{
    let had = values_at(served, txt_key(dns.zone@, name));
    let added = texts(u.values@).to_set();
    assert(texts(u.values@)[0] == value);
    assert(had.union(added) =~= had.insert(value));
    assert(had.insert(value).contains(value));
    assert(!(had.insert(value) =~= Set::<Seq<char>>::empty()));
}

/// Two values that are added one after the other are there together, with those that
/// were there before, and nothing else changes.
pub proof fn lemma_adds_accumulate(
    dns: ChallengeDns,
    served: Records,
    u: Update,
    v: Update,
    name: Seq<char>,
    first: Seq<char>,
    second: Seq<char>,
)
    requires
        dns.adds(u, name, first),
        dns.adds(v, name, second),
    ensures
        values_at(updated(updated(served, u), v), txt_key(dns.zone@, name)) == values_at(
            served,
            txt_key(dns.zone@, name),
        ).union(set![first, second]),
        forall|other: RecordKey|
            other != txt_key(dns.zone@, name) ==> #[trigger] values_at(
                updated(updated(served, u), v),
                other,
            ) == values_at(served, other),
{
    let had = values_at(served, txt_key(dns.zone@, name));
    lemma_add(dns, served, u, name, first);
    lemma_add(dns, updated(served, u), v, name, second);
    assert(had.insert(first).insert(second) =~= had.union(set![first, second]));
    assert forall|other: RecordKey| other != txt_key(dns.zone@, name) implies #[trigger] values_at(
        updated(updated(served, u), v),
        other,
    ) == values_at(served, other) by {
        lemma_update_is_local(served, u, other);
        lemma_update_is_local(updated(served, u), v, other);
    }
}

/// The challenges for a base and for its wildcard, which share one name, can be answered
/// together: the second value does not take the place of the first.
pub proof fn lemma_wildcard_beside_base(
    dns: ChallengeDns,
    served: Records,
    u: Update,
    v: Update,
    base: Seq<char>,
    first: Seq<char>,
    second: Seq<char>,
)
    requires
        !begins(base, "*."@),
        dns.adds(u, txt_name(base, dns.zone@), first),
        dns.adds(v, txt_name("*."@ + base, dns.zone@), second),
    ensures
        ({
            let key = txt_key(dns.zone@, txt_name(base, dns.zone@));
            let values = values_at(updated(updated(served, u), v), key);
            values.contains(first) && values.contains(second)
        }),
{
    lemma_wildcard_shares_name(base, dns.zone@);
    lemma_adds_accumulate(dns, served, u, v, txt_name(base, dns.zone@), first, second);
}

/// Clearing a name leaves no TXT value there, however many were added, and changes
/// nothing else; to clear it again changes nothing at all.
pub proof fn lemma_clear(dns: ChallengeDns, served: Records, u: Update, name: Seq<char>)
    requires
        dns.clears(u, name),
    ensures
        values_at(updated(served, u), txt_key(dns.zone@, name)) == Set::<Seq<char>>::empty(),
        forall|other: RecordKey|
            other != txt_key(dns.zone@, name) ==> #[trigger] values_at(updated(served, u), other)
                == values_at(served, other),
        updated(updated(served, u), u) == updated(served, u),
{
    let key = txt_key(dns.zone@, name);
    assert(texts(u.values@).to_set() =~= Set::<Seq<char>>::empty());
    assert(updated(served, u) == served.remove(key));
    assert(served.remove(key).remove(key) =~= served.remove(key));
}

/// A value that is added where there was none is gone once the name is cleared, and the
/// records are as they were.
pub proof fn lemma_clear_undoes_add(
    dns: ChallengeDns,
    served: Records,
    u: Update,
    v: Update,
    name: Seq<char>,
    value: Seq<char>,
)
    requires
        dns.adds(u, name, value),
        dns.clears(v, name),
        !served.contains_key(txt_key(dns.zone@, name)),
    ensures
        updated(updated(served, u), v) == served,
{
    let key = txt_key(dns.zone@, name);
    lemma_add(dns, served, u, name, value);
    assert(texts(v.values@).to_set() =~= Set::<Seq<char>>::empty());
    assert(updated(updated(served, u), v) =~= served);
}

/// What is added gets the configured time to live.
pub proof fn lemma_time_to_live(dns: ChallengeDns, u: Update, name: Seq<char>, value: Seq<char>)
    requires
        dns.adds(u, name, value),
    ensures
        u.ttl == dns.ttl,
{
}

} // verus!
