//! The Xray side: the requests that add a user to an inbound and take one
//! out, how the API's answers are read, and the per-user traffic in its
//! statistics.
use vstd::prelude::*;

use crate::proto::{
    append_bytes_field, append_string_field, append_uint32_field, length_delimited, string_field,
    uint32_field,
};
use crate::text::{concat2, contains, contains_spec, owned, split, split_spec, str_eq, views};
use crate::traffic::{amount, TrafficTable};

verus! {

/// The client of an Xray instance's gRPC API.
pub struct XrayClient {
    grpc_url: String,
}

/// A protobuf message packed with its type name (`xray.common.serial.TypedMessage`).
pub struct TypedMessage {
    pub message_type: String,
    pub value: Vec<u8>,
}

/// A change to an inbound (`xray.app.proxyman.command.AlterInboundRequest`).
pub struct AlterInbound {
    pub tag: String,
    pub operation: TypedMessage,
}

/// A statistics query (`xray.app.stats.command.QueryStatsRequest`).
pub struct StatsQuery {
    pub pattern: String,
    pub reset: bool,
}

/// One counter of Xray's statistics (`xray.app.stats.command.Stat`).
pub struct XrayStat {
    pub name: String,
    pub value: i64,
}

/// A string field, left out when the string is empty (proto3 default).
pub open spec fn optional_string(tag: nat, s: Seq<char>) -> Seq<u8> {
    if s.len() == 0 {
        Seq::empty()
    } else {
        string_field(tag, s)
    }
}

/// A bytes field, left out when empty (proto3 default).
pub open spec fn optional_bytes(tag: nat, b: Seq<u8>) -> Seq<u8> {
    if b.len() == 0 {
        Seq::empty()
    } else {
        length_delimited(tag, b)
    }
}

/// `xray.proxy.vless.Account { id, flow, encryption }`.
pub open spec fn account_bytes(id: Seq<char>, flow: Seq<char>, encryption: Seq<char>) -> Seq<u8> {
    optional_string(1, id) + optional_string(2, flow) + optional_string(3, encryption)
}

/// `xray.common.serial.TypedMessage { type, value }`.
pub open spec fn typed_message_bytes(message_type: Seq<char>, value: Seq<u8>) -> Seq<u8> {
    optional_string(1, message_type) + optional_bytes(2, value)
}

/// `xray.common.protocol.User { level, email, account }` with an account
/// whose encoding is `account`.
pub open spec fn user_bytes(level: u32, email: Seq<char>, account: Seq<u8>) -> Seq<u8> {
    (if level == 0 {
        Seq::empty()
    } else {
        uint32_field(1, level as nat)
    }) + optional_string(2, email) + length_delimited(3, account)
}

/// The VLESS account type name.
pub open spec fn vless_account_type() -> Seq<char> {
    "xray.proxy.vless.Account"@
}

/// The flow that every VLESS account is given.
pub open spec fn vless_flow() -> Seq<char> {
    "xtls-rprx-vision"@
}

/// `xray.app.proxyman.command.AddUserOperation` for a level-0 user `email`
/// with the VLESS account `uuid`.
pub open spec fn add_user_operation_bytes(email: Seq<char>, uuid: Seq<char>) -> Seq<u8> {
    length_delimited(
        1,
        user_bytes(
            0,
            email,
            typed_message_bytes(vless_account_type(), account_bytes(uuid, vless_flow(), Seq::empty())),
        ),
    )
}

/// `xray.app.proxyman.command.RemoveUserOperation { email }`.
pub open spec fn remove_user_operation_bytes(email: Seq<char>) -> Seq<u8> {
    optional_string(1, email)
}

/// The user a statistics counter belongs to: counters are named
/// `user>>>EMAIL>>>traffic>>>DIRECTION`.
pub open spec fn stat_user(name: Seq<char>) -> Option<Seq<char>> {
    let parts = split_spec(name, ">>>"@);
    if parts.len() >= 4 && parts[0] == "user"@ {
        Some(parts[1])
    } else {
        None
    }
}

/// The per-user sums of the user counters, in order.
pub open spec fn user_traffic_spec(stats: Seq<XrayStat>) -> Map<Seq<char>, u64>
    decreases stats.len(),
{
    if stats.len() == 0 {
        Map::empty()
    } else {
        let m = user_traffic_spec(stats.drop_last());
        match stat_user(stats.last().name@) {
            Some(u) => m.insert(u, (amount(m, u) + (stats.last().value as u64)) as u64),
            None => m,
        }
    }
}

/// Adding counter `i` to the sums of the counters before it overflows nothing.
pub open spec fn counter_fits(stats: Seq<XrayStat>, i: int) -> bool {
    match stat_user(stats[i].name@) {
        Some(u) => amount(user_traffic_spec(stats.take(i)), u) + (stats[i].value as u64) <= u64::MAX,
        None => true,
    }
}

/// No sum overflows along the way.
pub open spec fn user_traffic_fits(stats: Seq<XrayStat>) -> bool {
    forall|i: int| 0 <= i < stats.len() ==> #[trigger] counter_fits(stats, i)
}

/// The sum of the values of all of `u`'s counters, wherever they stand.
pub open spec fn counters_of_user(stats: Seq<XrayStat>, u: Seq<char>) -> int
    decreases stats.len(),
{
    if stats.len() == 0 {
        0
    } else {
        counters_of_user(stats.drop_last(), u) + (if stat_user(stats.last().name@) == Some(u) {
            stats.last().value as u64 as int
        } else {
            0int
        })
    }
}

/// Each user's traffic is the sum of all of that user's counters, whatever
/// their order; exactly the users that have a counter appear.
pub proof fn lemma_user_traffic_sums_every_counter(stats: Seq<XrayStat>, u: Seq<char>)
    requires
        user_traffic_fits(stats),
    ensures
        amount(user_traffic_spec(stats), u) == counters_of_user(stats, u),
        user_traffic_spec(stats).contains_key(u) <==> exists|i: int|
            0 <= i < stats.len() && stat_user(#[trigger] stats[i].name@) == Some(u),
    decreases stats.len(),
{
    if stats.len() > 0 {
        let p = stats.drop_last();
        let n = stats.len() - 1;
        assert forall|i: int| 0 <= i < p.len() implies #[trigger] counter_fits(p, i) by {
            assert(p.take(i) =~= stats.take(i));
            assert(p[i] == stats[i]);
            assert(counter_fits(stats, i));
        }
        lemma_user_traffic_sums_every_counter(p, u);
        assert(counter_fits(stats, n));
        assert(stats.take(n) =~= p);
        if exists|i: int| 0 <= i < stats.len() && stat_user(#[trigger] stats[i].name@) == Some(u) {
            let i = choose|i: int| 0 <= i < stats.len() && stat_user(#[trigger] stats[i].name@) == Some(u);
            if i < n {
                assert(p[i] == stats[i]);
            }
        }
        if exists|i: int| 0 <= i < p.len() && stat_user(#[trigger] p[i].name@) == Some(u) {
            let i = choose|i: int| 0 <= i < p.len() && stat_user(#[trigger] p[i].name@) == Some(u);
            assert(p[i] == stats[i]);
        }
    }
}

fn append_optional_string(tag: u32, value: &String, buf: &mut Vec<u8>)
    requires
        crate::proto::valid_tag(tag),
    ensures
        final(buf)@ == old(buf)@ + optional_string(tag as nat, value@),
{
    if value.as_str().is_empty() {
        assert(old(buf)@ + optional_string(tag as nat, value@) =~= old(buf)@);
    } else {
        append_string_field(tag, value, buf);
    }
}

fn append_optional_bytes(tag: u32, value: &Vec<u8>, buf: &mut Vec<u8>)
    requires
        crate::proto::valid_tag(tag),
    ensures
        final(buf)@ == old(buf)@ + optional_bytes(tag as nat, value@),
{
    if value.len() == 0 {
        assert(old(buf)@ + optional_bytes(tag as nat, value@) =~= old(buf)@);
    } else {
        append_bytes_field(tag, value, buf);
    }
}

/// The encoding of a VLESS account.
pub fn encode_account(id: &String, flow: &String, encryption: &String) -> (out: Vec<u8>)
    ensures
        out@ == account_bytes(id@, flow@, encryption@),
{
    let mut out: Vec<u8> = Vec::new();
    append_optional_string(1, id, &mut out);
    append_optional_string(2, flow, &mut out);
    append_optional_string(3, encryption, &mut out);
    assert(out@ =~= account_bytes(id@, flow@, encryption@));
    out
}

/// The encoding of a typed message.
pub fn encode_typed_message(m: &TypedMessage) -> (out: Vec<u8>)
    ensures
        out@ == typed_message_bytes(m.message_type@, m.value@),
{
    let mut out: Vec<u8> = Vec::new();
    append_optional_string(1, &m.message_type, &mut out);
    append_optional_bytes(2, &m.value, &mut out);
    assert(out@ =~= typed_message_bytes(m.message_type@, m.value@));
    out
}

/// The encoding of a user whose account is the typed message `account`.
pub fn encode_user(level: u32, email: &String, account: &TypedMessage) -> (out: Vec<u8>)
    ensures
        out@ == user_bytes(level, email@, typed_message_bytes(account.message_type@, account.value@)),
{
    let mut out: Vec<u8> = Vec::new();
    if level != 0 {
        append_uint32_field(1, &level, &mut out);
    }
    append_optional_string(2, email, &mut out);
    let account_bytes = encode_typed_message(account);
    append_bytes_field(3, &account_bytes, &mut out);
    assert(out@ =~= user_bytes(level, email@, typed_message_bytes(account.message_type@, account.value@)));
    out
}

impl XrayClient {
    /// The API's address.
    pub closed spec fn url(&self) -> Seq<char> {
        self.grpc_url@
    }

    /// A client of the API at `grpc_url`.
    pub fn new(grpc_url: String) -> (c: XrayClient)
        ensures
            c.url() == grpc_url@,
    {
        XrayClient { grpc_url }
    }

    /// The API's address.
    pub fn grpc_url(&self) -> (u: &String)
        ensures
            u@ == self.url(),
    {
        &self.grpc_url
    }

    /// The request that adds level-0 user `email` with VLESS account `uuid`
    /// (flow "xtls-rprx-vision", no encryption) to inbound `tag`.
    pub fn add_user_request(tag: &str, email: &str, uuid: &str) -> (r: AlterInbound)
        ensures
            r.tag@ == tag@,
            r.operation.message_type@ == "xray.app.proxyman.command.AddUserOperation"@,
            r.operation.value@ == add_user_operation_bytes(email@, uuid@),
    {
        let account = encode_account(&owned(uuid), &owned("xtls-rprx-vision"), &String::new());
        let account_msg = TypedMessage { message_type: owned("xray.proxy.vless.Account"), value: account };
        let user = encode_user(0, &owned(email), &account_msg);
        let mut operation: Vec<u8> = Vec::new();
        append_bytes_field(1, &user, &mut operation);
        proof {
            reveal_strlit("");
        }
        assert(operation@ =~= add_user_operation_bytes(email@, uuid@));
        AlterInbound {
            tag: owned(tag),
            operation: TypedMessage {
                message_type: owned("xray.app.proxyman.command.AddUserOperation"),
                value: operation,
            },
        }
    }

    /// The request that takes user `email` out of inbound `tag`.
    pub fn remove_user_request(tag: &str, email: &str) -> (r: AlterInbound)
        ensures
            r.tag@ == tag@,
            r.operation.message_type@ == "xray.app.proxyman.command.RemoveUserOperation"@,
            r.operation.value@ == remove_user_operation_bytes(email@),
    {
        let mut operation: Vec<u8> = Vec::new();
        append_optional_string(1, &owned(email), &mut operation);
        assert(operation@ =~= remove_user_operation_bytes(email@));
        AlterInbound {
            tag: owned(tag),
            operation: TypedMessage {
                message_type: owned("xray.app.proxyman.command.RemoveUserOperation"),
                value: operation,
            },
        }
    }

    /// The statistics query of a traffic report: the user counters, which
    /// the query resets to zero.
    pub fn report_stats_query() -> (q: StatsQuery)
        ensures
            q.pattern@ == "user>>>"@,
            q.reset,
    {
        StatsQuery { pattern: owned("user>>>"), reset: true }
    }

    /// The statistics query of a ping: the user counters, left as they are.
    pub fn ping_stats_query() -> (q: StatsQuery)
        ensures
            q.pattern@ == "user>>>"@,
            !q.reset,
    {
        StatsQuery { pattern: owned("user>>>"), reset: false }
    }

    /// The error for an API that could not be reached.
    pub fn connect_failure(error: &str) -> (m: String)
        ensures
            m@ == "Failed to connect to Xray gRPC: "@ + error@,
    {
        concat2("Failed to connect to Xray gRPC: ", error)
    }

    /// The error for an inbound change that the API refused.
    pub fn alter_inbound_failure(message: &str) -> (m: String)
        ensures
            m@ == "Xray AlterInbound failed: "@ + message@,
    {
        concat2("Xray AlterInbound failed: ", message)
    }

    /// The error for a statistics query that the API refused.
    pub fn query_stats_failure(message: &str) -> (m: String)
        ensures
            m@ == "Xray QueryStats failed: "@ + message@,
    {
        concat2("Xray QueryStats failed: ", message)
    }

    /// The outcome of a removal that the API refused with `message`: a user
    /// that is not there counts as removed.
    pub fn removal_refused(message: &str) -> (r: Result<(), String>)
        ensures
            (contains_spec(message@, "not found"@) || contains_spec(message@, "does not exist"@)
                || contains_spec(message@, "UserNotFound"@)) ==> r is Ok,
            !(contains_spec(message@, "not found"@) || contains_spec(message@, "does not exist"@)
                || contains_spec(message@, "UserNotFound"@)) ==> (r matches Err(m) && m@
                == "Xray AlterInbound failed: "@ + message@),
    {
        if contains(message, "not found") || contains(message, "does not exist") || contains(
            message,
            "UserNotFound",
        ) {
            Ok(())
        } else {
            Err(Self::alter_inbound_failure(message))
        }
    }

    /// The user a counter name belongs to, if it is a user counter.
    pub fn counter_user(name: &str) -> (u: Option<String>)
        ensures
            match stat_user(name@) {
                Some(s) => u matches Some(x) && x@ == s,
                None => u is None,
            },
    {
        proof {
            reveal_strlit(">>>");
        }
        let parts = split(name, ">>>");
        assert(views(parts@) == split_spec(name@, ">>>"@));
        if parts.len() >= 4 && str_eq(parts[0].as_str(), "user") {
            assert(views(parts@)[0] == parts@[0]@);
            assert(views(parts@)[1] == parts@[1]@);
            Some(parts[1].clone())
        } else {
            proof {
                if parts@.len() >= 4 {
                    assert(views(parts@)[0] == parts@[0]@);
                }
            }
            None
        }
    }

    /// Whether summing the user counters overflows nothing.
    pub fn user_traffic_fits(stats: &Vec<XrayStat>) -> (b: bool)
        ensures
            b == user_traffic_fits(stats@),
    {
        let mut table = TrafficTable::new();
        let mut i: usize = 0;
        while i < stats.len()
            invariant
                i <= stats@.len(),
                table@ == user_traffic_spec(stats@.take(i as int)),
                forall|j: int| 0 <= j < i ==> #[trigger] counter_fits(stats@, j),
            decreases stats.len() - i,
        {
            proof {
                assert(stats@.take(i + 1).drop_last() =~= stats@.take(i as int));
                assert(stats@.take(i + 1).last() == stats@[i as int]);
            }
            let value = stats[i].value as u64;
            match Self::counter_user(stats[i].name.as_str()) {
                Some(user) => {
                    if !table.can_add(&user, value) {
                        assert(!counter_fits(stats@, i as int));
                        return false;
                    }
                    table.add(user, value);
                },
                None => {},
            }
            assert(counter_fits(stats@, i as int));
            i = i + 1;
        }
        true
    }

    /// The bytes per user in Xray's counters: every counter named
    /// `user>>>EMAIL>>>...` with at least four parts adds its value to EMAIL.
    pub fn user_traffic(stats: &Vec<XrayStat>) -> (t: TrafficTable)
        requires
            user_traffic_fits(stats@),
        ensures
            t@ == user_traffic_spec(stats@),
    {
        let mut table = TrafficTable::new();
        let mut i: usize = 0;
        while i < stats.len()
            invariant
                i <= stats@.len(),
                user_traffic_fits(stats@),
                table@ == user_traffic_spec(stats@.take(i as int)),
            decreases stats.len() - i,
        {
            proof {
                assert(stats@.take(i + 1).drop_last() =~= stats@.take(i as int));
                assert(stats@.take(i + 1).last() == stats@[i as int]);
                assert(counter_fits(stats@, i as int));
            }
            let value = stats[i].value as u64;
            match Self::counter_user(stats[i].name.as_str()) {
                Some(user) => {
                    table.add(user, value);
                },
                None => {},
            }
            i = i + 1;
        }
        assert(stats@.take(stats@.len() as int) =~= stats@);
        table
    }

    /// The bytes per user in Xray's counters, or `None` where a sum would
    /// overflow.
    pub fn checked_user_traffic(stats: &Vec<XrayStat>) -> (t: Option<TrafficTable>)
        ensures
            user_traffic_fits(stats@) ==> (t matches Some(x) && x@ == user_traffic_spec(stats@)),
            !user_traffic_fits(stats@) ==> t is None,
    {
        if Self::user_traffic_fits(stats) {
            Some(Self::user_traffic(stats))
        } else {
            None
        }
    }
}

} // verus!
