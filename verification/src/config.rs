//! The node's settings, from the values of its environment variables.
use vstd::prelude::*;

use crate::dto::{HysteriaConfig, XrayConfig};
use crate::hub::copy_strings;
use crate::text::{
    concat3, is_white_space, lemma_trim_leaves_no_white_space_at_ends, owned, split, split_spec,
    str_eq, trim, trim_spec, views,
};

verus! {

/// The node's settings.
#[derive(Clone, Debug)]
pub struct Config {
    pub hub_url: String,
    pub node_id: String,
    pub auth_secret: String,
    pub public_ip: String,
    pub xray_grpc_url: String,
    pub hysteria_api_url: String,
    pub hysteria_auth_addr: String,
    pub inbound_tags: Vec<String>,
    pub name_en: String,
    pub name_ru: String,
    pub country_flag: String,
    pub xray_port: u16,
    pub xray_sni: String,
    pub xray_public_key: String,
    pub xray_short_id: String,
    pub hysteria_port: u16,
    pub hysteria_sni: String,
}

/// Why the settings could not be made.
#[derive(Debug)]
pub enum ConfigError {
    /// A required variable is unset or blank.
    MissingEnv { name: &'static str },
}

impl ConfigError {
    /// The error as a sentence.
    pub fn message(&self) -> (m: String)
        ensures
            match self {
                ConfigError::MissingEnv { name } => m@ == "Required environment variable "@ + name@
                    + " is not set"@,
            },
    {
        match self {
            ConfigError::MissingEnv { name } => concat3(
                "Required environment variable ",
                name,
                " is not set",
            ),
        }
    }
}

/// The value of each variable the settings are read from; `None` where it is
/// unset or not valid Unicode.
pub struct EnvValues {
    pub hub_url: Option<String>,
    pub node_id: Option<String>,
    pub auth_secret: Option<String>,
    pub public_ip: Option<String>,
    pub xray_grpc_url: Option<String>,
    pub hysteria_api_url: Option<String>,
    pub hysteria_auth_addr: Option<String>,
    pub inbound_tags: Option<String>,
    pub name_en: Option<String>,
    pub name_ru: Option<String>,
    pub country_flag: Option<String>,
    pub xray_port: Option<String>,
    pub xray_sni: Option<String>,
    pub xray_public_key: Option<String>,
    pub xray_short_id: Option<String>,
    pub hysteria_port: Option<String>,
    pub hysteria_sni: Option<String>,
}

/// The value of a variable, or `default` where it is unset.
pub open spec fn or_default(v: Option<String>, default: Seq<char>) -> Seq<char> {
    match v {
        Some(s) => s@,
        None => default,
    }
}

/// A required variable is set and not blank.
pub open spec fn present(v: Option<String>) -> bool {
    v matches Some(s) && trim_spec(s@).len() > 0
}

/// Whether `c` is a decimal digit.
pub open spec fn is_digit(c: char) -> bool {
    48 <= (c as u32) <= 57
}

/// The number that the decimal digits `d` write.
pub open spec fn decimal_value(d: Seq<char>) -> int
    decreases d.len(),
{
    if d.len() == 0 {
        0
    } else {
        decimal_value(d.drop_last()) * 10 + ((d.last() as u32) - 48)
    }
}

/// The digits of a number: `s` without one leading `+`.
pub open spec fn unsigned_digits(s: Seq<char>) -> Seq<char> {
    if s.len() > 0 && s[0] == '+' {
        s.drop_first()
    } else {
        s
    }
}

/// Every character of `d` is a decimal digit.
pub open spec fn all_digits(d: Seq<char>) -> bool {
    forall|i: int| 0 <= i < d.len() ==> is_digit(#[trigger] d[i])
}

/// `s` read as a `u16` (`str::parse::<u16>`): an optional `+`, then one or
/// more decimal digits whose value fits.
pub open spec fn parse_u16_spec(s: Seq<char>) -> Option<u16> {
    let digits = unsigned_digits(s);
    if digits.len() > 0 && all_digits(digits) && decimal_value(digits) <= 65535 {
        Some(decimal_value(digits) as u16)
    } else {
        None
    }
}

/// A port variable: its value where it reads as a port, else 443.
pub open spec fn port_or_default(v: Option<String>) -> u16 {
    match v {
        Some(s) => match parse_u16_spec(s@) {
            Some(p) => p,
            None => 443,
        },
        None => 443,
    }
}

/// The pieces of a list, trimmed, the empty ones left out.
pub open spec fn trimmed_nonempty(parts: Seq<Seq<char>>) -> Seq<Seq<char>>
    decreases parts.len(),
{
    if parts.len() == 0 {
        Seq::empty()
    } else {
        let rest = trimmed_nonempty(parts.drop_last());
        let t = trim_spec(parts.last());
        if t.len() > 0 {
            rest.push(t)
        } else {
            rest
        }
    }
}

/// The inbound tags of a comma-separated list.
pub open spec fn tag_list(raw: Seq<char>) -> Seq<Seq<char>> {
    trimmed_nonempty(split_spec(raw, ","@))
}

/// Every inbound tag read from a list is non-empty, and neither starts nor
/// ends with white space.
pub proof fn lemma_tags_are_trimmed_and_nonempty(parts: Seq<Seq<char>>)
    ensures
        forall|i: int|
            0 <= i < trimmed_nonempty(parts).len() ==> (#[trigger] trimmed_nonempty(parts)[i]).len() > 0
                && !is_white_space(trimmed_nonempty(parts)[i][0]) && !is_white_space(
                trimmed_nonempty(parts)[i].last(),
            ),
    decreases parts.len(),
{
    if parts.len() > 0 {
        lemma_tags_are_trimmed_and_nonempty(parts.drop_last());
        lemma_trim_leaves_no_white_space_at_ends(parts.last());
        let rest = trimmed_nonempty(parts.drop_last());
        let t = trim_spec(parts.last());
        if t.len() > 0 {
            assert forall|i: int| 0 <= i < rest.push(t).len() implies (#[trigger] rest.push(t)[i]).len() > 0
                && !is_white_space(rest.push(t)[i][0]) && !is_white_space(rest.push(t)[i].last()) by {
                if i < rest.len() {
                    assert(rest.push(t)[i] == rest[i]);
                }
            }
        }
    }
}

/// The name of the first required variable that is missing, if any.
pub open spec fn first_missing(env: EnvValues) -> Option<Seq<char>> {
    if !present(env.hub_url) {
        Some("HUB_URL"@)
    } else if !present(env.node_id) {
        Some("NODE_ID"@)
    } else if !present(env.auth_secret) {
        Some("AUTH_SECRET"@)
    } else if !present(env.public_ip) {
        Some("PUBLIC_IP"@)
    } else if !present(env.xray_grpc_url) {
        Some("XRAY_GRPC_URL"@)
    } else {
        None
    }
}

/// The settings that `env` gives, where no required variable is missing.
pub open spec fn config_matches(env: EnvValues, c: Config) -> bool {
    &&& c.hub_url@ == env.hub_url->0@
    &&& c.node_id@ == env.node_id->0@
    &&& c.auth_secret@ == env.auth_secret->0@
    &&& c.public_ip@ == env.public_ip->0@
    &&& c.xray_grpc_url@ == env.xray_grpc_url->0@
    &&& c.hysteria_api_url@ == or_default(env.hysteria_api_url, "disabled"@)
    &&& c.hysteria_auth_addr@ == or_default(env.hysteria_auth_addr, "127.0.0.1:8080"@)
    &&& views(c.inbound_tags@) == tag_list(or_default(env.inbound_tags, "vless-reality-in"@))
    &&& c.name_en@ == or_default(env.name_en, "Germany"@)
    &&& c.name_ru@ == or_default(env.name_ru, "Германия"@)
    &&& c.country_flag@ == or_default(env.country_flag, "🇩🇪"@)
    &&& c.xray_port == port_or_default(env.xray_port)
    &&& c.xray_sni@ == or_default(env.xray_sni, "www.yahoo.com"@)
    &&& c.xray_public_key@ == or_default(env.xray_public_key, ""@)
    &&& c.xray_short_id@ == or_default(env.xray_short_id, ""@)
    &&& c.hysteria_port == port_or_default(env.hysteria_port)
    &&& c.hysteria_sni@ == or_default(env.hysteria_sni, "fuckbook.pro"@)
}

/// Every setting whose variable is set takes that variable's value exactly;
/// only an unset variable falls back to its default (a port also falls back
/// when its value does not read as a port).
pub proof fn lemma_set_variables_are_taken(env: EnvValues, c: Config)
    requires
        config_matches(env, c),
    ensures
        env.hub_url matches Some(v) ==> c.hub_url@ == v@,
        env.node_id matches Some(v) ==> c.node_id@ == v@,
        env.auth_secret matches Some(v) ==> c.auth_secret@ == v@,
        env.public_ip matches Some(v) ==> c.public_ip@ == v@,
        env.xray_grpc_url matches Some(v) ==> c.xray_grpc_url@ == v@,
        env.hysteria_api_url matches Some(v) ==> c.hysteria_api_url@ == v@,
        env.hysteria_api_url is None ==> c.hysteria_api_url@ == "disabled"@,
        env.hysteria_auth_addr matches Some(v) ==> c.hysteria_auth_addr@ == v@,
        env.hysteria_auth_addr is None ==> c.hysteria_auth_addr@ == "127.0.0.1:8080"@,
        env.name_en matches Some(v) ==> c.name_en@ == v@,
        env.name_en is None ==> c.name_en@ == "Germany"@,
        env.name_ru matches Some(v) ==> c.name_ru@ == v@,
        env.name_ru is None ==> c.name_ru@ == "Германия"@,
        env.country_flag matches Some(v) ==> c.country_flag@ == v@,
        env.country_flag is None ==> c.country_flag@ == "🇩🇪"@,
        env.xray_sni matches Some(v) ==> c.xray_sni@ == v@,
        env.xray_sni is None ==> c.xray_sni@ == "www.yahoo.com"@,
        env.xray_public_key matches Some(v) ==> c.xray_public_key@ == v@,
        env.xray_public_key is None ==> c.xray_public_key@.len() == 0,
        env.xray_short_id matches Some(v) ==> c.xray_short_id@ == v@,
        env.xray_short_id is None ==> c.xray_short_id@.len() == 0,
        env.hysteria_sni matches Some(v) ==> c.hysteria_sni@ == v@,
        env.hysteria_sni is None ==> c.hysteria_sni@ == "fuckbook.pro"@,
        env.xray_port matches Some(v) ==> (parse_u16_spec(v@) matches Some(p) ==> c.xray_port == p),
        !(env.xray_port matches Some(v) && parse_u16_spec(v@) is Some) ==> c.xray_port == 443,
        env.hysteria_port matches Some(v) ==> (parse_u16_spec(v@) matches Some(p) ==> c.hysteria_port == p),
        !(env.hysteria_port matches Some(v) && parse_u16_spec(v@) is Some) ==> c.hysteria_port == 443,
{
    reveal_strlit("");
}

fn value_or(v: Option<String>, default: &str) -> (s: String)
    ensures
        s@ == or_default(v, default@),
{
    match v {
        Some(s) => s,
        None => owned(default),
    }
}

/// A required variable: its value, unless it is unset or blank.
pub fn required_env(name: &'static str, value: Option<String>) -> (r: Result<String, ConfigError>)
    ensures
        present(value) ==> (r matches Ok(s) && s == value->0),
        !present(value) ==> (r matches Err(ConfigError::MissingEnv { name: n }) && n == name),
{
    match value {
        Some(v) => {
            let t = trim(v.as_str());
            if t.as_str().is_empty() {
                Err(ConfigError::MissingEnv { name })
            } else {
                Ok(v)
            }
        },
        None => Err(ConfigError::MissingEnv { name }),
    }
}

proof fn lemma_decimal_nonneg(d: Seq<char>)
    requires
        forall|i: int| 0 <= i < d.len() ==> is_digit(#[trigger] d[i]),
    ensures
        decimal_value(d) >= 0,
    decreases d.len(),
{
    if d.len() > 0 {
        let p = d.drop_last();
        assert forall|i: int| 0 <= i < p.len() implies is_digit(#[trigger] p[i]) by {
            assert(p[i] == d[i]);
        }
        lemma_decimal_nonneg(p);
        assert(is_digit(d[d.len() - 1]));
    }
}

proof fn lemma_decimal_prefix(d: Seq<char>, k: int)
    requires
        0 <= k <= d.len(),
        forall|i: int| 0 <= i < d.len() ==> is_digit(#[trigger] d[i]),
    ensures
        decimal_value(d.take(k)) <= decimal_value(d),
    decreases d.len(),
{
    if k < d.len() {
        let p = d.drop_last();
        assert forall|i: int| 0 <= i < p.len() implies is_digit(#[trigger] p[i]) by {
            assert(p[i] == d[i]);
        }
        lemma_decimal_prefix(p, k);
        assert(p.take(k) =~= d.take(k));
        lemma_decimal_nonneg(p);
        assert(is_digit(d[d.len() - 1]));
    } else {
        assert(d.take(k) =~= d);
    }
}

/// `s` read as a port number (`str::parse::<u16>`).
pub fn parse_u16(s: &str) -> (r: Option<u16>)
    ensures
        r == parse_u16_spec(s@),
{
    let cs = crate::text::chars_of(s);
    let start: usize = if cs.len() > 0 && cs[0] == '+' {
        1
    } else {
        0
    };
    let ghost digits = unsigned_digits(s@);
    assert(digits =~= cs@.subrange(start as int, cs@.len() as int));
    if start >= cs.len() {
        return None;
    }
    let mut acc: u32 = 0;
    let mut i: usize = start;
    while i < cs.len()
        invariant
            cs@ == s@,
            start <= i <= cs@.len(),
            digits == cs@.subrange(start as int, cs@.len() as int),
            digits == unsigned_digits(s@),
            forall|j: int| 0 <= j < i - start ==> is_digit(#[trigger] digits[j]),
            acc == decimal_value(digits.take(i - start)),
            acc <= 65535,
        decreases cs.len() - i,
    {
        let c = cs[i];
        let u = c as u32;
        assert(digits[i - start] == c);
        if u < 48 || u > 57 {
            proof {
                assert(!is_digit(digits[i - start]));
            }
            return None;
        }
        let ghost k = i - start;
        assert(digits.take(k + 1).drop_last() =~= digits.take(k));
        assert(digits.take(k + 1).last() == c);
        let next = acc * 10 + (u - 48);
        assert(decimal_value(digits.take(k + 1)) == next);
        if next > 65535 {
            proof {
                if all_digits(digits) {
                    lemma_decimal_prefix(digits, k + 1);
                    assert(decimal_value(digits) > 65535);
                }
                assert(parse_u16_spec(s@) is None);
            }
            return None;
        }
        acc = next;
        i = i + 1;
    }
    assert(digits.take(digits.len() as int) =~= digits);
    Some(acc as u16)
}

fn port_or_443(v: Option<String>) -> (p: u16)
    ensures
        p == port_or_default(v),
{
    match v {
        Some(s) => match parse_u16(s.as_str()) {
            Some(p) => p,
            None => 443,
        },
        None => 443,
    }
}

/// The inbound tags of a comma-separated list: each piece trimmed, the
/// empty ones left out.
pub fn parse_tag_list(raw: &str) -> (tags: Vec<String>)
    ensures
        views(tags@) == tag_list(raw@),
{
    proof {
        reveal_strlit(",");
    }
    let parts = split(raw, ",");
    let ghost ps = views(parts@);
    let mut tags: Vec<String> = Vec::new();
    let mut i: usize = 0;
    while i < parts.len()
        invariant
            ps == views(parts@),
            ps == split_spec(raw@, ","@),
            i <= parts@.len(),
            views(tags@) == trimmed_nonempty(ps.take(i as int)),
        decreases parts.len() - i,
    {
        let t = trim(parts[i].as_str());
        proof {
            assert(ps.take(i + 1).drop_last() =~= ps.take(i as int));
            assert(ps.take(i + 1).last() == parts@[i as int]@);
        }
        if !t.as_str().is_empty() {
            proof {
                assert(views(tags@.push(t)) =~= views(tags@).push(t@));
            }
            tags.push(t);
        } else {
            assert(t@.len() == 0);
        }
        i = i + 1;
    }
    assert(ps.take(ps.len() as int) =~= ps);
    tags
}

impl Config {
    /// The settings from the variables' values: every required variable
    /// (HUB_URL, NODE_ID, AUTH_SECRET, PUBLIC_IP, XRAY_GRPC_URL, in this
    /// order) must be set and not blank, the others fall back to defaults.
    pub fn from_env_values(env: EnvValues) -> (r: Result<Config, ConfigError>)
        ensures
            match first_missing(env) {
                Some(name) => r matches Err(ConfigError::MissingEnv { name: n }) && n@ == name,
                None => r matches Ok(c) && config_matches(env, c),
            },
    {
        let ghost e = env;
        let inbound_tags_str = value_or(env.inbound_tags, "vless-reality-in");
        let inbound_tags = parse_tag_list(inbound_tags_str.as_str());
        let hysteria_auth_addr = value_or(env.hysteria_auth_addr, "127.0.0.1:8080");
        let name_en = value_or(env.name_en, "Germany");
        let name_ru = value_or(env.name_ru, "Германия");
        let country_flag = value_or(env.country_flag, "🇩🇪");
        let xray_port = port_or_443(env.xray_port);
        let xray_sni = value_or(env.xray_sni, "www.yahoo.com");
        let xray_public_key = value_or(env.xray_public_key, "");
        let xray_short_id = value_or(env.xray_short_id, "");
        let hysteria_port = port_or_443(env.hysteria_port);
        let hysteria_sni = value_or(env.hysteria_sni, "fuckbook.pro");
        let hub_url = match required_env("HUB_URL", env.hub_url) {
            Ok(v) => v,
            Err(err) => {
                return Err(err);
            },
        };
        let node_id = match required_env("NODE_ID", env.node_id) {
            Ok(v) => v,
            Err(err) => {
                return Err(err);
            },
        };
        let auth_secret = match required_env("AUTH_SECRET", env.auth_secret) {
            Ok(v) => v,
            Err(err) => {
                return Err(err);
            },
        };
        let public_ip = match required_env("PUBLIC_IP", env.public_ip) {
            Ok(v) => v,
            Err(err) => {
                return Err(err);
            },
        };
        let xray_grpc_url = match required_env("XRAY_GRPC_URL", env.xray_grpc_url) {
            Ok(v) => v,
            Err(err) => {
                return Err(err);
            },
        };
        let hysteria_api_url = value_or(env.hysteria_api_url, "disabled");
        Ok(
            Config {
                hub_url,
                node_id,
                auth_secret,
                public_ip,
                xray_grpc_url,
                hysteria_api_url,
                hysteria_auth_addr,
                inbound_tags,
                name_en,
                name_ru,
                country_flag,
                xray_port,
                xray_sni,
                xray_public_key,
                xray_short_id,
                hysteria_port,
                hysteria_sni,
            },
        )
    }

    /// Whether the Hysteria2 back-end is used: its API address is neither
    /// "disabled" nor blank.
    pub fn uses_hysteria(&self) -> (b: bool)
        ensures
            b == !(self.hysteria_api_url@ == "disabled"@ || trim_spec(self.hysteria_api_url@).len()
                == 0),
    {
        if str_eq(self.hysteria_api_url.as_str(), "disabled") {
            return false;
        }
        let t = trim(self.hysteria_api_url.as_str());
        !t.as_str().is_empty()
    }

    /// How clients reach the Xray inbound, as offered to the hub.
    pub fn xray_offer(&self) -> (x: XrayConfig)
        ensures
            x.port == self.xray_port,
            x.sni == self.xray_sni,
            x.public_key == self.xray_public_key,
            x.short_id == self.xray_short_id,
    {
        XrayConfig {
            port: self.xray_port,
            sni: self.xray_sni.clone(),
            public_key: self.xray_public_key.clone(),
            short_id: self.xray_short_id.clone(),
        }
    }

    /// How clients reach the Hysteria2 inbound, as offered to the hub: offered
    /// unless the API address is "disabled" or empty.
    pub fn hysteria_offer(&self) -> (h: Option<HysteriaConfig>)
        ensures
            (self.hysteria_api_url@ != "disabled"@ && self.hysteria_api_url@.len() != 0) ==> (h
                matches Some(c) && c.port == self.hysteria_port && c.sni == self.hysteria_sni),
            !(self.hysteria_api_url@ != "disabled"@ && self.hysteria_api_url@.len() != 0) ==> h is None,
    {
        if !str_eq(self.hysteria_api_url.as_str(), "disabled") && !self.hysteria_api_url.as_str().is_empty() {
            Some(HysteriaConfig { port: self.hysteria_port, sni: self.hysteria_sni.clone() })
        } else {
            None
        }
    }

    /// The inbound tags, copied.
    pub fn inbound_tag_list(&self) -> (t: Vec<String>)
        ensures
            t@ == self.inbound_tags@,
    {
        copy_strings(&self.inbound_tags)
    }
}

} // verus!
