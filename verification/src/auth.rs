//! The credentials handler: which entry of the credential table answers a
//! probe for a registry host.

use crate::error::Error;
use crate::messages::{
    credentials_bytes, decode_text_request, encode_credentials, parse_text_request,
};
use crate::text::{contains, is_substring, same_text};
use vstd::prelude::*;

verus! {

/// The credentials of one registry.
#[derive(Debug, Clone, PartialEq, Eq)]
pub struct RegistryAuthConfig {
    pub host: String,
    pub username: String,
    pub password: String,
}

/// The credential table: its entries in the order in which they were
/// added.
#[derive(Debug, Clone, PartialEq, Eq)]
pub struct AuthServer {
    pub registries: Vec<RegistryAuthConfig>,
}

/// What a probe is answered with.
#[derive(Debug, Clone, PartialEq, Eq)]
pub struct Credentials {
    pub username: String,
    pub secret: String,
}

/// How an entry can answer for a host.
#[derive(Debug, Clone, Copy, PartialEq, Eq, Structural)]
pub enum Rule {
    /// The pattern is the host.
    Exact,
    /// The pattern occurs in the host.
    Contained,
    /// The pattern is `docker.io` and the host one of its two registries.
    DockerAlias,
}

/// Whether a pattern answers for a host under a rule.
pub open spec fn rule_holds(rule: Rule, pattern: Seq<char>, host: Seq<char>) -> bool {
    match rule {
        Rule::Exact => pattern == host,
        Rule::Contained => is_substring(pattern, host),
        Rule::DockerAlias => pattern == "docker.io"@ && (host == "registry-1.docker.io"@ || host
            == "index.docker.io"@),
    }
}

/// The place of the first entry that answers for a host under a rule.
pub open spec fn first_match(regs: Seq<RegistryAuthConfig>, host: Seq<char>, rule: Rule) -> Option<
    int,
>
    decreases regs.len(),
{
    if regs.len() == 0 {
        None
    } else {
        match first_match(regs.drop_last(), host, rule) {
            Some(i) => Some(i),
            None => if rule_holds(rule, regs.last().host@, host) {
                Some(regs.len() - 1)
            } else {
                None
            },
        }
    }
}

/// The place of the entry that answers for a host: the first whose pattern
/// is the host; if there is none, the first whose pattern occurs in the
/// host; if there is none, the first that answers by the alias rule.
pub open spec fn chosen(regs: Seq<RegistryAuthConfig>, host: Seq<char>) -> Option<int> {
    match first_match(regs, host, Rule::Exact) {
        Some(i) => Some(i),
        None => match first_match(regs, host, Rule::Contained) {
            Some(i) => Some(i),
            None => first_match(regs, host, Rule::DockerAlias),
        },
    }
}

/// The credentials that answer a probe for a host: those of the chosen
/// entry, or empty ones, which stand for anonymous access.
pub open spec fn credentials_of(regs: Seq<RegistryAuthConfig>, host: Seq<char>) -> (
    Seq<char>,
    Seq<char>,
) {
    match chosen(regs, host) {
        Some(i) => (regs[i].username@, regs[i].password@),
        None => (Seq::empty(), Seq::empty()),
    }
}

/// `first_match` finds the least place at which the rule holds, and finds
/// nothing exactly where the rule holds nowhere.
pub proof fn lemma_first_match(regs: Seq<RegistryAuthConfig>, host: Seq<char>, rule: Rule)
    ensures
        match first_match(regs, host, rule) {
            Some(i) => 0 <= i < regs.len() && rule_holds(rule, regs[i].host@, host) && forall|
                j: int,
            |
                0 <= j < i ==> !rule_holds(rule, #[trigger] regs[j].host@, host),
            None => forall|j: int|
                0 <= j < regs.len() ==> !rule_holds(rule, #[trigger] regs[j].host@, host),
        },
    decreases regs.len(),
{
    if regs.len() > 0 {
        let front = regs.drop_last();
        lemma_first_match(front, host, rule);
        match first_match(front, host, rule) {
            Some(i) => {
                assert(regs[i] == front[i]);
                assert forall|j: int| 0 <= j < i implies !rule_holds(
                    rule,
                    #[trigger] regs[j].host@,
                    host,
                ) by {
                    assert(regs[j] == front[j]);
                }
            },
            None => {
                assert forall|j: int| 0 <= j < regs.len() - 1 implies !rule_holds(
                    rule,
                    #[trigger] regs[j].host@,
                    host,
                ) by {
                    assert(regs[j] == front[j]);
                }
            },
        }
    }
}

/// Where the rule holds first at place `i` among the first `k` entries, it
/// holds first at place `i` among all.
proof fn lemma_first_match_stays(
    regs: Seq<RegistryAuthConfig>,
    host: Seq<char>,
    rule: Rule,
    k: int,
)
    requires
        0 <= k <= regs.len(),
        first_match(regs.take(k), host, rule) is Some,
    ensures
        first_match(regs, host, rule) == first_match(regs.take(k), host, rule),
    decreases regs.len() - k,
{
    if k < regs.len() {
        assert(regs.take(k + 1).drop_last() =~= regs.take(k));
        lemma_first_match_stays(regs, host, rule, k + 1);
    } else {
        assert(regs.take(k) =~= regs);
    }
}

/// Whether a pattern answers for a host under a rule.
pub fn rule_applies(rule: Rule, pattern: &str, host: &str) -> (r: bool)
    ensures
        r == rule_holds(rule, pattern@, host@),
{
    match rule {
        Rule::Exact => same_text(pattern, host),
        Rule::Contained => contains(host, pattern),
        Rule::DockerAlias => same_text(pattern, "docker.io") && (same_text(
            host,
            "registry-1.docker.io",
        ) || same_text(host, "index.docker.io")),
    }
}

impl AuthServer {
    /// An empty credential table.
    pub fn new() -> (r: Self)
        ensures
            r.registries@.len() == 0,
    {
        AuthServer { registries: Vec::new() }
    }

    /// Adds an entry behind those that are there.
    pub fn add_registry(&mut self, config: RegistryAuthConfig)
        ensures
            final(self).registries@ == old(self).registries@.push(config),
    {
        self.registries.push(config);
    }

    /// The place of the first entry that answers for a host under a rule.
    pub fn find_first(&self, host: &str, rule: Rule) -> (r: Option<usize>)
        ensures
            match first_match(self.registries@, host@, rule) {
                Some(i) => r is Some && r.unwrap() as int == i && 0 <= i < self.registries@.len(),
                None => r is None,
            },
    {
        let ghost regs = self.registries@;
        let mut i: usize = 0;
        assert(regs.take(0) =~= Seq::<RegistryAuthConfig>::empty());
        while i < self.registries.len()
            invariant
                i <= self.registries.len(),
                regs == self.registries@,
                first_match(regs.take(i as int), host@, rule) is None,
            decreases self.registries.len() - i,
        {
            proof {
                assert(regs.take(i + 1).drop_last() =~= regs.take(i as int));
                assert(regs.take(i + 1).last() == regs[i as int]);
            }
            if rule_applies(rule, self.registries[i].host.as_str(), host) {
                proof {
                    lemma_first_match_stays(regs, host@, rule, i + 1);
                }
                return Some(i);
            }
            i += 1;
        }
        assert(regs.take(i as int) =~= regs);
        None
    }

    /// The entry that answers for a host, if any.
    pub fn find_credentials(&self, host: &str) -> (r: Option<&RegistryAuthConfig>)
        ensures
            match chosen(self.registries@, host@) {
                Some(i) => 0 <= i < self.registries@.len() && r is Some && *r.unwrap()
                    == self.registries@[i],
                None => r is None,
            },
    {
        let exact = self.find_first(host, Rule::Exact);
        let found = if exact.is_some() {
            exact
        } else {
            let contained = self.find_first(host, Rule::Contained);
            if contained.is_some() {
                contained
            } else {
                self.find_first(host, Rule::DockerAlias)
            }
        };
        match found {
            Some(i) => Some(&self.registries[i]),
            None => None,
        }
    }

    /// The credentials that answer a probe for a host. No entry is no
    /// error: the answer is then empty.
    pub fn credentials(&self, host: &str) -> (r: Credentials)
        ensures
            (r.username@, r.secret@) == credentials_of(self.registries@, host@),
    {
        match self.find_credentials(host) {
            Some(config) => Credentials {
                username: config.username.clone(),
                secret: config.password.clone(),
            },
            None => Credentials { username: String::new(), secret: String::new() },
        }
    }
}

impl Default for AuthServer {
    /// An empty credential table.
    fn default() -> (r: Self)
        ensures
            r.registries@.len() == 0,
    {
        AuthServer::new()
    }
}

/// The host that the bytes of a credentials probe ask for.
pub open spec fn probe_host(payload: Seq<u8>) -> Option<Seq<char>> {
    parse_text_request(payload, 1)
}

/// The answer to a credentials probe, given the table if one is
/// configured: the bytes of the credentials for the host of the probe,
/// empty ones without a table. Fails with a decode error exactly where the
/// probe is malformed.
pub fn handle_auth_credentials(auth: Option<&AuthServer>, payload: &[u8]) -> (r: Result<
    Vec<u8>,
    Error,
>)
    ensures
        match probe_host(payload@) {
            Some(host) => r is Ok && r.unwrap()@ == (match auth {
                Some(a) => credentials_bytes(
                    credentials_of(a.registries@, host).0,
                    credentials_of(a.registries@, host).1,
                ),
                None => credentials_bytes(Seq::empty(), Seq::empty()),
            }),
            None => r matches Err(Error::Decode { message_type }) && message_type@
                == "CredentialsRequest"@,
        },
{
    let host = match decode_text_request(payload, 1) {
        Some(h) => h,
        None => {
            return Err(Error::decode("CredentialsRequest"));
        },
    };
    let found = match auth {
        Some(a) => a.credentials(host.as_str()),
        None => Credentials { username: String::new(), secret: String::new() },
    };
    Ok(encode_credentials(found.username.as_str(), found.secret.as_str()))
}

/// The answer to a request for a token: an empty token, whatever was
/// asked, so that the daemon falls back to credentials.
pub fn handle_auth_fetch_token(payload: &[u8]) -> (r: Vec<u8>)
    ensures
        r@ == Seq::<u8>::empty(),
{
    Vec::new()
}

} // verus!
