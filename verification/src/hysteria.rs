//! The Hysteria2 side: the users that its authentication hook lets in, the
//! addresses of its traffic API, how its traffic document is read, and the
//! per-user deltas between two readings of its counters.
use vstd::hash_map::StringHashMap;
use vstd::prelude::*;

use crate::text::{concat2, contains, contains_spec, owned, str_eq, strip_trailing, strip_trailing_spec};
use crate::traffic::{amount, TrafficTable};

verus! {

/// The body of an authentication request from Hysteria2: the credential a
/// client presented, and its address.
#[derive(Debug, Clone)]
pub struct HysteriaAuthRequest {
    pub auth: String,
    pub addr: String,
}

/// The verdict on an authentication request.
#[derive(Debug, Clone, Copy, PartialEq, Eq)]
pub enum AuthStatus {
    /// Let the client in (HTTP 200).
    Accepted,
    /// Turn the client away (HTTP 401).
    Unauthorized,
}

/// A Hysteria2 back-end that does nothing and always answers, for nodes
/// that run Xray alone.
#[derive(Debug, Clone, Copy)]
pub struct NoopHysteriaClient;

/// The users that Hysteria2 lets in, by credential.
pub struct UserRegistry {
    users: StringHashMap<()>,
}

impl UserRegistry {
    /// The credentials let in.
    pub closed spec fn members(&self) -> Set<Seq<char>> {
        self.users@.dom()
    }

    /// A registry that lets nobody in.
    pub fn new() -> (r: UserRegistry)
        ensures
            r.members() == Set::<Seq<char>>::empty(),
    {
        UserRegistry { users: StringHashMap::new() }
    }

    /// Lets `uuid` in.
    pub fn add_user(&mut self, uuid: &str)
        ensures
            final(self).members() == old(self).members().insert(uuid@),
    {
        self.users.insert(owned(uuid), ());
    }

    /// Stops letting `uuid` in.
    pub fn remove_user(&mut self, uuid: &str)
        ensures
            final(self).members() == old(self).members().remove(uuid@),
    {
        self.users.remove(uuid);
    }

    /// Whether `uuid` is let in.
    pub fn contains(&self, uuid: &str) -> (b: bool)
        ensures
            b == self.members().contains(uuid@),
    {
        self.users.contains_key(uuid)
    }

    /// The verdict on a request: accepted exactly when its credential is a member.
    pub fn authorize(&self, request: &HysteriaAuthRequest) -> (s: AuthStatus)
        ensures
            s == verdict(self.members(), request.auth@),
    {
        if self.contains(request.auth.as_str()) {
            AuthStatus::Accepted
        } else {
            AuthStatus::Unauthorized
        }
    }
}

/// The verdict on credential `auth` of a registry whose members are `members`.
pub open spec fn verdict(members: Set<Seq<char>>, auth: Seq<char>) -> AuthStatus {
    if members.contains(auth) {
        AuthStatus::Accepted
    } else {
        AuthStatus::Unauthorized
    }
}

/// Adding a user lets that user in and changes no other verdict; removing
/// a user turns that user away and changes no other verdict.
pub proof fn lemma_registry_verdicts(members: Set<Seq<char>>, user: Seq<char>, other: Seq<char>)
    requires
        other != user,
    ensures
        verdict(members.insert(user), user) == AuthStatus::Accepted,
        verdict(members.remove(user), user) == AuthStatus::Unauthorized,
        verdict(members.insert(user), other) == verdict(members, other),
        verdict(members.remove(user), other) == verdict(members, other),
{
}

/// Removing a user twice leaves the registry as removing it once.
pub proof fn lemma_removal_is_idempotent(members: Set<Seq<char>>, user: Seq<char>)
    ensures
        members.remove(user).remove(user) == members.remove(user),
{
    assert(members.remove(user).remove(user) =~= members.remove(user));
}

/// The address of the traffic API: the base without trailing slashes, then "/traffic".
pub fn traffic_url(api_url: &str) -> (u: String)
    ensures
        u@ == strip_trailing_spec(api_url@, '/') + "/traffic"@,
{
    let base = strip_trailing(api_url, '/');
    concat2(base.as_str(), "/traffic")
}

/// The address of the kick API: the base, then "/kick".
pub fn kick_url(api_url: &str) -> (u: String)
    ensures
        u@ == api_url@ + "/kick"@,
{
    concat2(api_url, "/kick")
}

/// Whether a refused kick only says that the user was not connected: status
/// 404, or a body that says "not found" or "does not exist".
pub fn kick_refusal_is_benign(status: u16, body: &str) -> (b: bool)
    ensures
        b == (status == 404 || contains_spec(body@, "not found"@) || contains_spec(
            body@,
            "does not exist"@,
        )),
{
    status == 404 || contains(body, "not found") || contains(body, "does not exist")
}

/// The counters of one user in the traffic document: `tx` and `rx` where
/// they are unsigned integers.
pub struct UserCounters {
    pub auth: String,
    pub tx: Option<u64>,
    pub rx: Option<u64>,
}

/// One member of the traffic document's top-level object: its key, the
/// `tx` and `rx` of its value where they are unsigned integers, and the
/// members of its value where that value is itself an object.
pub struct StatsMember {
    pub key: String,
    pub tx: Option<u64>,
    pub rx: Option<u64>,
    pub members: Option<Vec<UserCounters>>,
}

/// The traffic document: the members of its top-level object, or `None`
/// where it is not an object.
pub struct StatsDocument {
    pub members: Option<Vec<StatsMember>>,
}

/// How a request for the traffic counters went.
pub enum StatsFetch {
    /// The API could not be reached.
    Unreachable,
    /// The API answered with an unsuccessful status.
    Unsuccessful,
    /// The body could not be decoded; the error as text.
    Undecodable(String),
    /// The decoded body.
    Decoded(StatsDocument),
}

/// The counters of the member named "traffic", where its value is an object.
pub open spec fn nested_traffic(members: Seq<StatsMember>) -> Option<Seq<UserCounters>>
    decreases members.len(),
{
    if members.len() == 0 {
        None
    } else if members[0].key@ == "traffic"@ {
        match members[0].members {
            Some(v) => Some(v@),
            None => None,
        }
    } else {
        nested_traffic(members.drop_first())
    }
}

/// The value of an optional counter, 0 where it is missing.
pub open spec fn counter(c: Option<u64>) -> int {
    match c {
        Some(v) => v as int,
        None => 0,
    }
}

/// Totals of the nested form: every user, `tx + rx`, later ones winning.
pub open spec fn nested_totals(list: Seq<UserCounters>) -> Map<Seq<char>, u64>
    decreases list.len(),
{
    if list.len() == 0 {
        Map::empty()
    } else {
        nested_totals(list.drop_last()).insert(
            list.last().auth@,
            (counter(list.last().tx) + counter(list.last().rx)) as u64,
        )
    }
}

/// Totals of the flat form: every member other than "traffic" that has a
/// `tx`, `tx + rx`, later ones winning.
pub open spec fn flat_totals(members: Seq<StatsMember>) -> Map<Seq<char>, u64>
    decreases members.len(),
{
    if members.len() == 0 {
        Map::empty()
    } else {
        let m = flat_totals(members.drop_last());
        let last = members.last();
        if last.key@ == "traffic"@ || last.tx is None {
            m
        } else {
            m.insert(last.key@, (counter(last.tx) + counter(last.rx)) as u64)
        }
    }
}

/// The total bytes per user in a traffic document: under "traffic" where
/// that is an object, else at the top level.
pub open spec fn document_totals(doc: StatsDocument) -> Map<Seq<char>, u64> {
    match doc.members {
        None => Map::empty(),
        Some(v) => match nested_traffic(v@) {
            Some(list) => nested_totals(list),
            None => flat_totals(v@),
        },
    }
}

/// No `tx + rx` that the totals use overflows.
pub open spec fn document_fits(doc: StatsDocument) -> bool {
    match doc.members {
        None => true,
        Some(v) => match nested_traffic(v@) {
            Some(list) => forall|i: int|
                0 <= i < list.len() ==> counter(#[trigger] list[i].tx) + counter(list[i].rx) <= u64::MAX,
            None => forall|i: int|
                0 <= i < v@.len() ==> (#[trigger] v@[i]).key@ == "traffic"@ || v@[i].tx is None
                    || counter(v@[i].tx) + counter(v@[i].rx) <= u64::MAX,
        },
    }
}

fn find_nested(members: &Vec<StatsMember>) -> (r: Option<usize>)
    ensures
        match r {
            Some(i) => i < members@.len() && members@[i as int].members is Some && nested_traffic(
                members@,
            ) == Some(members@[i as int].members->0@),
            None => nested_traffic(members@) is None,
        },
{
    let mut i: usize = 0;
    assert(members@.subrange(0, members@.len() as int) =~= members@);
    while i < members.len()
        invariant
            i <= members@.len(),
            nested_traffic(members@) == nested_traffic(members@.subrange(i as int, members@.len() as int)),
        decreases members.len() - i,
    {
        let ghost rest = members@.subrange(i as int, members@.len() as int);
        assert(rest[0] == members@[i as int]);
        assert(rest.drop_first() =~= members@.subrange(i + 1, members@.len() as int));
        if str_eq(members[i].key.as_str(), "traffic") {
            match &members[i].members {
                Some(_) => {
                    return Some(i);
                },
                None => {
                    return None;
                },
            }
        }
        i = i + 1;
    }
    None
}

fn or_zero(c: Option<u64>) -> (v: u64)
    ensures
        v == counter(c),
{
    match c {
        Some(v) => v,
        None => 0,
    }
}

/// Whether no `tx + rx` that the totals use overflows.
#[verifier::loop_isolation(false)]
pub fn document_fits_exec(doc: &StatsDocument) -> (b: bool)
    ensures
        b == document_fits(*doc),
{
    match &doc.members {
        None => true,
        Some(v) => match find_nested(v) {
            Some(k) => {
                let list = match &v[k].members {
                    Some(l) => l,
                    None => {
                        return true;
                    },
                };
                let mut i: usize = 0;
                while i < list.len()
                    invariant
                        i <= list@.len(),
                        forall|j: int| 0 <= j < i ==> counter(#[trigger] list@[j].tx) + counter(list@[j].rx) <= u64::MAX,
                    decreases list.len() - i,
                {
                    if or_zero(list[i].tx) > u64::MAX - or_zero(list[i].rx) {
                        assert(list@ == v@[k as int].members->0@);
                        assert(counter(list@[i as int].tx) + counter(list@[i as int].rx) > u64::MAX);
                        return false;
                    }
                    i = i + 1;
                }
                true
            },
            None => {
                let mut i: usize = 0;
                while i < v.len()
                    invariant
                        i <= v@.len(),
                        forall|j: int|
                            0 <= j < i ==> (#[trigger] v@[j]).key@ == "traffic"@ || v@[j].tx is None
                                || counter(v@[j].tx) + counter(v@[j].rx) <= u64::MAX,
                    decreases v.len() - i,
                {
                    if !str_eq(v[i].key.as_str(), "traffic") && v[i].tx.is_some() && or_zero(v[i].tx)
                        > u64::MAX - or_zero(v[i].rx) {
                        assert(!(v@[i as int].key@ == "traffic"@ || v@[i as int].tx is None || counter(
                            v@[i as int].tx,
                        ) + counter(v@[i as int].rx) <= u64::MAX));
                        assert(nested_traffic(v@) is None);
                        return false;
                    }
                    i = i + 1;
                }
                true
            },
        },
    }
}

/// The total bytes per user in a traffic document.
#[verifier::loop_isolation(false)]
pub fn document_totals_exec(doc: &StatsDocument) -> (t: TrafficTable)
    requires
        document_fits(*doc),
    ensures
        t@ == document_totals(*doc),
{
    let mut table = TrafficTable::new();
    match &doc.members {
        None => {},
        Some(v) => match find_nested(v) {
            Some(k) => {
                let list = match &v[k].members {
                    Some(l) => l,
                    None => {
                        return table;
                    },
                };
                let mut i: usize = 0;
                while i < list.len()
                    invariant
                        i <= list@.len(),
                        forall|j: int| 0 <= j < list@.len() ==> counter(#[trigger] list@[j].tx) + counter(list@[j].rx) <= u64::MAX,
                        table@ == nested_totals(list@.take(i as int)),
                    decreases list.len() - i,
                {
                    proof {
                        assert(list@.take(i + 1).drop_last() =~= list@.take(i as int));
                        assert(list@.take(i + 1).last() == list@[i as int]);
                        assert(counter(list@[i as int].tx) + counter(list@[i as int].rx) <= u64::MAX);
                    }
                    let total = or_zero(list[i].tx) + or_zero(list[i].rx);
                    table.set(list[i].auth.clone(), total);
                    i = i + 1;
                }
                assert(list@.take(list@.len() as int) =~= list@);
            },
            None => {
                let mut i: usize = 0;
                while i < v.len()
                    invariant
                        i <= v@.len(),
                        forall|j: int|
                            0 <= j < v@.len() ==> (#[trigger] v@[j]).key@ == "traffic"@ || v@[j].tx is None
                                || counter(v@[j].tx) + counter(v@[j].rx) <= u64::MAX,
                        table@ == flat_totals(v@.take(i as int)),
                    decreases v.len() - i,
                {
                    proof {
                        assert(v@.take(i + 1).drop_last() =~= v@.take(i as int));
                        assert(v@.take(i + 1).last() == v@[i as int]);
                        assert(v@[i as int].key@ == "traffic"@ || v@[i as int].tx is None || counter(v@[i as int].tx) + counter(v@[i as int].rx) <= u64::MAX);
                    }
                    if !str_eq(v[i].key.as_str(), "traffic") {
                        match v[i].tx {
                            Some(tx) => {
                                let total = tx + or_zero(v[i].rx);
                                table.set(v[i].key.clone(), total);
                            },
                            None => {},
                        }
                    }
                    i = i + 1;
                }
                assert(v@.take(v@.len() as int) =~= v@);
            },
        },
    }
    table
}

/// What a counter reading adds over the one before: the growth, or the whole
/// reading where the counter went down (Hysteria2 restarted).
pub open spec fn delta_of(prev: int, total: int) -> int {
    if total >= prev {
        total - prev
    } else {
        total
    }
}

/// The deltas of a reading over the last one seen: every user of the
/// reading whose delta is not 0.
pub open spec fn deltas_spec(last: Map<Seq<char>, u64>, totals: Map<Seq<char>, u64>) -> Map<Seq<char>, u64> {
    Map::new(
        |k: Seq<char>| totals.contains_key(k) && delta_of(amount(last, k), totals[k] as int) > 0,
        |k: Seq<char>| delta_of(amount(last, k), totals[k] as int) as u64,
    )
}

/// The last reading of each user's counters.
pub struct TrafficLedger {
    last: StringHashMap<u64>,
}

impl TrafficLedger {
    /// The last reading of each user seen.
    pub closed spec fn readings(&self) -> Map<Seq<char>, u64> {
        self.last@
    }

    /// A ledger that has seen nothing.
    pub fn new() -> (l: TrafficLedger)
        ensures
            l.readings() == Map::<Seq<char>, u64>::empty(),
    {
        TrafficLedger { last: StringHashMap::new() }
    }

    /// The deltas of `totals` over the last readings; the readings then
    /// become `totals`, user by user.
    pub fn take_deltas(&mut self, totals: &TrafficTable) -> (d: TrafficTable)
        ensures
            d@ == deltas_spec(old(self).readings(), totals@),
            final(self).readings() == old(self).readings().union_prefer_right(totals@),
    {
        let pairs = totals.to_pairs();
        assert(pairs@.len() > 0 ==> totals@.contains_key(pairs@[0].0@));
        let ghost start = self.last@;
        let mut deltas = TrafficTable::new();
        let mut i: usize = 0;
        while i < pairs.len()
            invariant
                i <= pairs@.len(),
                pairs@.len() == totals@.dom().len(),
                forall|j: int| 0 <= j < pairs@.len() ==> #[trigger] totals@.contains_key(pairs@[j].0@)
                    && totals@[pairs@[j].0@] == pairs@[j].1,
                forall|a: int, b: int|
                    0 <= a < pairs@.len() && 0 <= b < pairs@.len() && a != b ==> #[trigger] pairs@[a].0@
                        != #[trigger] pairs@[b].0@,
                forall|k: Seq<char>| #[trigger] self.last@.contains_key(k) <==> (start.contains_key(k) || exists|j: int| 0 <= j < i && pairs@[j].0@ == k),
                forall|k: Seq<char>| self.last@.contains_key(k) ==> #[trigger] self.last@[k] == (if exists|j: int| 0 <= j < i && pairs@[j].0@ == k { totals@[k] } else { start[k] }),
                forall|k: Seq<char>| #[trigger] deltas@.contains_key(k) <==> (exists|j: int| 0 <= j < i && pairs@[j].0@ == k) && delta_of(amount(start, k), totals@[k] as int) > 0,
                forall|k: Seq<char>| deltas@.contains_key(k) ==> #[trigger] deltas@[k] == delta_of(amount(start, k), totals@[k] as int),
            decreases pairs.len() - i,
        {
            let name = pairs[i].0.clone();
            let total = pairs[i].1;
            let ghost k = name@;
            proof {
                assert(!exists|j: int| 0 <= j < i && pairs@[j].0@ == k);
                assert(totals@.contains_key(pairs@[i as int].0@));
                assert(totals@[k] == total);
            }
            let prev: u64 = match self.last.get(name.as_str()) {
                Some(p) => *p,
                None => 0,
            };
            assert(prev == amount(start, k));
            let ghost before_last = self.last@;
            let ghost before_deltas = deltas@;
            if total >= prev {
                let delta = total - prev;
                if delta > 0 {
                    deltas.set(name.clone(), delta);
                }
            } else {
                if total > 0 {
                    deltas.set(name.clone(), total);
                }
            }
            self.last.insert(name, total);
            proof {
                assert forall|k2: Seq<char>| #[trigger] self.last@.contains_key(k2) <==> (start.contains_key(k2) || exists|j: int| 0 <= j < i + 1 && pairs@[j].0@ == k2) by {
                    if k2 == k {
                        assert(pairs@[i as int].0@ == k2);
                    } else if exists|j: int| 0 <= j < i + 1 && pairs@[j].0@ == k2 {
                        let j = choose|j: int| 0 <= j < i + 1 && pairs@[j].0@ == k2;
                        assert(j != i);
                    }
                }
                assert forall|k2: Seq<char>| self.last@.contains_key(k2) implies #[trigger] self.last@[k2] == (if exists|j: int| 0 <= j < i + 1 && pairs@[j].0@ == k2 { totals@[k2] } else { start[k2] }) by {
                    if k2 == k {
                        assert(pairs@[i as int].0@ == k2);
                    } else {
                        assert(self.last@[k2] == before_last[k2]);
                        if exists|j: int| 0 <= j < i + 1 && pairs@[j].0@ == k2 {
                            let j = choose|j: int| 0 <= j < i + 1 && pairs@[j].0@ == k2;
                            assert(j != i);
                            assert(exists|j: int| 0 <= j < i && pairs@[j].0@ == k2);
                        }
                    }
                }
                assert forall|k2: Seq<char>| #[trigger] deltas@.contains_key(k2) <==> (exists|j: int| 0 <= j < i + 1 && pairs@[j].0@ == k2) && delta_of(amount(start, k2), totals@[k2] as int) > 0 by {
                    if k2 == k {
                        assert(pairs@[i as int].0@ == k2);
                    } else {
                        assert(deltas@.contains_key(k2) == before_deltas.contains_key(k2));
                        if exists|j: int| 0 <= j < i + 1 && pairs@[j].0@ == k2 {
                            let j = choose|j: int| 0 <= j < i + 1 && pairs@[j].0@ == k2;
                            assert(j != i);
                            assert(exists|j: int| 0 <= j < i && pairs@[j].0@ == k2);
                        }
                    }
                }
                assert forall|k2: Seq<char>| deltas@.contains_key(k2) implies #[trigger] deltas@[k2] == delta_of(amount(start, k2), totals@[k2] as int) by {
                    if k2 != k {
                        assert(deltas@[k2] == before_deltas[k2]);
                    }
                }
            }
            i = i + 1;
        }
        proof {
            assert forall|k: Seq<char>| totals@.contains_key(k) implies exists|j: int| 0 <= j < pairs@.len() && pairs@[j].0@ == k by {
                let keys = pairs@.map_values(|p: (String, u64)| p.0@);
                assert(keys.no_duplicates()) by {
                    assert forall|a: int, b: int| 0 <= a < keys.len() && 0 <= b < keys.len() && a != b implies keys[a] != keys[b] by {
                        assert(keys[a] == pairs@[a].0@);
                        assert(keys[b] == pairs@[b].0@);
                    }
                }
                keys.unique_seq_to_set();
                assert(keys.to_set().subset_of(totals@.dom())) by {
                    assert forall|x: Seq<char>| keys.to_set().contains(x) implies totals@.dom().contains(x) by {
                        let j = choose|j: int| 0 <= j < keys.len() && keys[j] == x;
                        assert(keys[j] == pairs@[j].0@);
                    }
                }
                vstd::set_lib::lemma_len_subset(keys.to_set(), totals@.dom());
                vstd::set_lib::lemma_subset_equality(keys.to_set(), totals@.dom());
                assert(keys.to_set().contains(k));
                let j = choose|j: int| 0 <= j < keys.len() && keys[j] == k;
                assert(pairs@[j].0@ == k);
            }
            assert(deltas@ =~= deltas_spec(start, totals@));
            assert(self.last@ =~= start.union_prefer_right(totals@));
        }
        deltas
    }

    /// The traffic report of one request for the counters: nothing when the
    /// API could not be reached or answered unsuccessfully, an error when the
    /// body could not be decoded, else the deltas of the document's totals
    /// over the last readings, which the totals then replace.
    pub fn collect(&mut self, fetch: StatsFetch) -> (r: Result<TrafficTable, String>)
        requires
            fetch matches StatsFetch::Decoded(doc) ==> document_fits(doc),
        ensures
            match fetch {
                StatsFetch::Unreachable => r matches Ok(t) && t@ == Map::<Seq<char>, u64>::empty()
                    && final(self).readings() == old(self).readings(),
                StatsFetch::Unsuccessful => r matches Ok(t) && t@ == Map::<Seq<char>, u64>::empty()
                    && final(self).readings() == old(self).readings(),
                StatsFetch::Undecodable(e) => r matches Err(m) && m@
                    == "Hysteria stats JSON decode error: "@ + e@ && final(self).readings()
                    == old(self).readings(),
                StatsFetch::Decoded(doc) => r matches Ok(t) && t@ == deltas_spec(
                    old(self).readings(),
                    document_totals(doc),
                ) && final(self).readings() == old(self).readings().union_prefer_right(
                    document_totals(doc),
                ),
            },
    {
        match fetch {
            StatsFetch::Unreachable => Ok(TrafficTable::new()),
            StatsFetch::Unsuccessful => Ok(TrafficTable::new()),
            StatsFetch::Undecodable(e) => Err(
                concat2("Hysteria stats JSON decode error: ", e.as_str()),
            ),
            StatsFetch::Decoded(doc) => {
                let totals = document_totals_exec(&doc);
                Ok(self.take_deltas(&totals))
            },
        }
    }
}

/// Reading the same totals twice in a row reports nothing the second time.
pub proof fn lemma_repeated_reading_reports_nothing(last: Map<Seq<char>, u64>, totals: Map<Seq<char>, u64>)
    ensures
        deltas_spec(last.union_prefer_right(totals), totals) == Map::<Seq<char>, u64>::empty(),
{
    assert(deltas_spec(last.union_prefer_right(totals), totals) =~= Map::<Seq<char>, u64>::empty());
}

/// Two requests in a row that both decode the same document: the second
/// reports nothing and leaves the readings as the first left them.
pub proof fn lemma_repeated_collect_reports_nothing(readings: Map<Seq<char>, u64>, doc: StatsDocument)
    ensures
        ({
            let after_first = readings.union_prefer_right(document_totals(doc));
            &&& deltas_spec(after_first, document_totals(doc)) == Map::<Seq<char>, u64>::empty()
            &&& after_first.union_prefer_right(document_totals(doc)) == after_first
        }),
{
    let totals = document_totals(doc);
    let after_first = readings.union_prefer_right(totals);
    lemma_repeated_reading_reports_nothing(readings, totals);
    assert(after_first.union_prefer_right(totals) =~= after_first);
}

/// A counter that grew reports its growth; one that went down (a restart)
/// reports its whole reading; one that stayed reports nothing.
pub proof fn lemma_delta_of_reading(last: Map<Seq<char>, u64>, totals: Map<Seq<char>, u64>, k: Seq<char>)
    requires
        totals.contains_key(k),
    ensures
        totals[k] > amount(last, k) ==> deltas_spec(last, totals).contains_key(k) && deltas_spec(
            last,
            totals,
        )[k] == totals[k] - amount(last, k),
        totals[k] < amount(last, k) && totals[k] > 0 ==> deltas_spec(last, totals).contains_key(k)
            && deltas_spec(last, totals)[k] == totals[k],
        totals[k] == amount(last, k) ==> !deltas_spec(last, totals).contains_key(k),
{
}

} // verus!
