//! The module's configuration: AWS settings, the role-to-user mapping and
//! logging settings, with the checks that a parsed configuration must pass.

use vstd::prelude::*;

verus! {

/// Which database users each IAM role may log in as, keyed by role name.
/// No role name occurs twice.
#[derive(Debug)]
pub struct RoleMapping {
    entries: Vec<(String, Vec<String>)>,
}

impl RoleMapping {
    spec fn key_at(self, i: int) -> Seq<char> {
        self.entries@[i].0@
    }

    spec fn users_at(self, i: int) -> Seq<Seq<char>> {
        self.entries@[i].1.deep_view()
    }

    spec fn has_key_at(self, k: Seq<char>, i: int) -> bool {
        0 <= i < self.entries@.len() && self.key_at(i) == k
    }

    #[verifier::type_invariant]
    spec fn keys_distinct(self) -> bool {
        forall|i: int, j: int|
            0 <= i < j < self.entries@.len() ==> #[trigger] self.key_at(i) != #[trigger] self.key_at(
                j,
            )
    }

    /// An empty mapping.
    pub fn new() -> (m: RoleMapping)
        ensures
            m@ == Map::<Seq<char>, Seq<Seq<char>>>::empty(),
    {
        let m = RoleMapping { entries: Vec::new() };
        assert(m@ =~= Map::<Seq<char>, Seq<Seq<char>>>::empty());
        m
    }

    fn find(&self, key: &str) -> (r: Option<usize>)
        ensures
            r matches Some(i) ==> self.has_key_at(key@, i as int),
            r is None ==> forall|i: int| !self.has_key_at(key@, i),
    {
        let mut i: usize = 0;
        while i < self.entries.len()
            invariant
                i <= self.entries@.len(),
                forall|j: int| 0 <= j < i ==> !self.has_key_at(key@, j),
            decreases self.entries.len() - i,
        {
            if crate::text::same_text(self.entries[i].0.as_str(), key) {
                return Some(i);
            }
            i += 1;
        }
        None
    }

    proof fn lemma_lookup(&self, k: Seq<char>, i: int)
        requires
            self.keys_distinct(),
            self.has_key_at(k, i),
        ensures
            self@.contains_key(k),
            self@[k] == self.users_at(i),
    {
        let j = choose|j: int| self.has_key_at(k, j);
        if j != i {
            if j < i {
                assert(self.key_at(j) != self.key_at(i));
            } else {
                assert(self.key_at(i) != self.key_at(j));
            }
        }
    }

    /// The users mapped to `role`, if the role has a mapping.
    pub fn get(&self, role: &str) -> (r: Option<&Vec<String>>)
        ensures
            r is Some <==> self@.contains_key(role@),
            r matches Some(users) ==> users.deep_view() == self@[role@],
    {
        match self.find(role) {
            Some(i) => {
                proof {
                    use_type_invariant(self);
                    self.lemma_lookup(role@, i as int);
                }
                Some(&self.entries[i].1)
            },
            None => None,
        }
    }

    /// Whether no role has a mapping.
    pub fn is_empty(&self) -> (r: bool)
        ensures
            r <==> self@ == Map::<Seq<char>, Seq<Seq<char>>>::empty(),
    {
        let r = self.entries.len() == 0;
        proof {
            if r {
                assert(self@ =~= Map::<Seq<char>, Seq<Seq<char>>>::empty());
            } else {
                assert(self.has_key_at(self.key_at(0), 0));
                assert(self@.contains_key(self.key_at(0)));
            }
        }
        r
    }

    spec fn keys(self) -> Seq<Seq<char>> {
        Seq::new(self.entries@.len(), |i: int| self.key_at(i))
    }

    proof fn lemma_len(&self)
        requires
            self.keys_distinct(),
        ensures
            self@.dom().len() == self.entries@.len(),
    {
        let ks = self.keys();
        assert(ks.no_duplicates()) by {
            assert forall|i: int, j: int| 0 <= i < ks.len() && 0 <= j < ks.len() && i != j implies ks[i] != ks[j] by {
                if i < j {
                    assert(self.key_at(i) != self.key_at(j));
                } else {
                    assert(self.key_at(j) != self.key_at(i));
                }
            }
        }
        ks.unique_seq_to_set();
        assert forall|k: Seq<char>| #[trigger] self@.dom().contains(k) == ks.to_set().contains(k) by {
            if self@.dom().contains(k) {
                let i = choose|i: int| self.has_key_at(k, i);
                assert(ks[i] == k);
            }
            if ks.to_set().contains(k) {
                let i = choose|i: int| 0 <= i < ks.len() && ks[i] == k;
                assert(self.has_key_at(k, i));
            }
        }
        assert(self@.dom() =~= ks.to_set());
    }

    /// How many roles have a mapping.
    pub fn len(&self) -> (n: usize)
        ensures
            n == self@.dom().len(),
    {
        proof {
            use_type_invariant(self);
            self.lemma_len();
        }
        self.entries.len()
    }

    /// One of the mappings, by position (positions run from 0 to `len()`, in
    /// no particular order of roles).
    pub fn entry_at(&self, index: usize) -> (e: (&String, &Vec<String>))
        requires
            index < self@.dom().len(),
        ensures
            self@.contains_key(e.0@),
            e.1.deep_view() == self@[e.0@],
    {
        proof {
            use_type_invariant(self);
            self.lemma_len();
            self.lemma_lookup(self.key_at(index as int), index as int);
        }
        (&self.entries[index].0, &self.entries[index].1)
    }

    /// Maps `role` to `users`, replacing and returning what it was mapped
    /// to before.
    pub fn insert(&mut self, role: String, users: Vec<String>) -> (previous: Option<Vec<String>>)
        ensures
            final(self)@ == old(self)@.insert(role@, users.deep_view()),
            previous is Some <==> old(self)@.contains_key(role@),
            previous matches Some(p) ==> p.deep_view() == old(self)@[role@],
    {
        proof {
            use_type_invariant(&*self);
        }
        let ghost old_map = self@;
        let ghost old_self = *self;
        let ghost key = role@;
        let ghost new_users = users.deep_view();
        match self.find(role.as_str()) {
            Some(i) => {
                proof {
                    old_self.lemma_lookup(key, i as int);
                }
                let mut entries: Vec<(String, Vec<String>)> = Vec::new();
                std::mem::swap(&mut entries, &mut self.entries);
                let (_, prev) = entries.remove(i);
                entries.push((role, users));
                proof {
                    let n = entries@.len();
                    assert forall|a: int, b: int| 0 <= a < b < n implies entries@[a].0@ != entries@[b].0@ by {
                        if b == n - 1 {
                            if a < i {
                                assert(old_self.key_at(a) != old_self.key_at(i as int));
                            } else {
                                assert(old_self.key_at(i as int) != old_self.key_at(a + 1));
                            }
                        } else {
                            let oa = if a < i { a } else { a + 1 };
                            let ob = if b < i { b } else { b + 1 };
                            assert(old_self.key_at(oa) != old_self.key_at(ob));
                        }
                    }
                }
                self.entries = entries;
                proof {
                    use_type_invariant(&*self);
                    let n = self.entries@.len();
                    assert(self.has_key_at(key, n - 1));
                    assert forall|k: Seq<char>| #[trigger] self@.contains_key(k) == old_map.insert(key, new_users).contains_key(k) by {
                        if self@.contains_key(k) {
                            let j = choose|j: int| self.has_key_at(k, j);
                            if j < n - 1 {
                                let oj = if j < i { j } else { j + 1 };
                                assert(old_self.has_key_at(k, oj));
                            }
                        }
                        if k != key && old_map.contains_key(k) {
                            let oj = choose|j: int| old_self.has_key_at(k, j);
                            assert(oj != i);
                            let j = if oj < i { oj } else { oj - 1 };
                            assert(self.has_key_at(k, j));
                        }
                    }
                    assert forall|k: Seq<char>| #[trigger] self@.contains_key(k) implies self@[k] == old_map.insert(key, new_users)[k] by {
                        let j = choose|j: int| self.has_key_at(k, j);
                        self.lemma_lookup(k, j);
                        if j < n - 1 {
                            let oj = if j < i { j } else { j + 1 };
                            old_self.lemma_lookup(k, oj);
                            assert(k != key) by {
                                assert(old_self.key_at(oj) != old_self.key_at(i as int) || oj == i);
                            }
                        } else {
                            assert(self.users_at(j) == new_users);
                        }
                    }
                    assert(self@ =~= old_map.insert(key, new_users));
                }
                Some(prev)
            },
            None => {
                let mut entries: Vec<(String, Vec<String>)> = Vec::new();
                std::mem::swap(&mut entries, &mut self.entries);
                entries.push((role, users));
                proof {
                    let n = entries@.len();
                    assert forall|a: int, b: int| 0 <= a < b < n implies entries@[a].0@ != entries@[b].0@ by {
                        if b == n - 1 {
                            assert(!old_self.has_key_at(key, a));
                        } else {
                            assert(old_self.key_at(a) != old_self.key_at(b));
                        }
                    }
                }
                self.entries = entries;
                proof {
                    use_type_invariant(&*self);
                    let n = self.entries@.len();
                    assert(self.has_key_at(key, n - 1));
                    assert forall|k: Seq<char>| #[trigger] self@.contains_key(k) == old_map.insert(key, new_users).contains_key(k) by {
                        if self@.contains_key(k) {
                            let j = choose|j: int| self.has_key_at(k, j);
                            if j < n - 1 {
                                assert(old_self.has_key_at(k, j));
                            }
                        }
                        if old_map.contains_key(k) {
                            let oj = choose|j: int| old_self.has_key_at(k, j);
                            assert(self.has_key_at(k, oj));
                        }
                    }
                    assert forall|k: Seq<char>| #[trigger] self@.contains_key(k) implies self@[k] == old_map.insert(key, new_users)[k] by {
                        let j = choose|j: int| self.has_key_at(k, j);
                        self.lemma_lookup(k, j);
                        if j < n - 1 {
                            old_self.lemma_lookup(k, j);
                        }
                    }
                    assert(self@ =~= old_map.insert(key, new_users));
                }
                None
            },
        }
    }
}

/// Reading a role back after mapping it gives the users it was just mapped
/// to, and mapping one role leaves every other role's users as they were.
pub proof fn law_get_after_insert(
    before: Map<Seq<char>, Seq<Seq<char>>>,
    role: Seq<char>,
    users: Seq<Seq<char>>,
    other: Seq<char>,
)
    requires
        other != role,
    ensures
        before.insert(role, users).contains_key(role),
        before.insert(role, users)[role] == users,
        before.insert(role, users).contains_key(other) == before.contains_key(other),
        before.contains_key(other) ==> before.insert(role, users)[other] == before[other],
{
}

impl View for RoleMapping {
    type V = Map<Seq<char>, Seq<Seq<char>>>;

    closed spec fn view(&self) -> Map<Seq<char>, Seq<Seq<char>>> {
        Map::new(
            |k: Seq<char>| exists|i: int| self.has_key_at(k, i),
            |k: Seq<char>| self.users_at(choose|i: int| self.has_key_at(k, i)),
        )
    }
}

/// AWS settings: the region, the accounts whose identities are accepted,
/// an optional STS endpoint, the HTTP timeout and the expiry grace period.
#[derive(Debug)]
pub struct AwsConfig {
    pub region: String,
    pub allowed_account_ids: Vec<String>,
    pub sts_endpoint: Option<String>,
    pub timeout_secs: u64,
    pub grace_period_secs: Option<u64>,
}

/// Logging settings: the level and the syslog facility, by name.
#[derive(Debug)]
pub struct LoggingConfig {
    pub level: String,
    pub facility: String,
}

/// The whole configuration.
#[derive(Debug)]
pub struct Config {
    pub aws: AwsConfig,
    pub role_mapping: RoleMapping,
    pub logging: LoggingConfig,
}

/// The HTTP timeout, in seconds, when the configuration names none.
pub fn default_timeout() -> (r: u64)
    ensures
        r == 5,
{
    5
}

/// The log level when the configuration names none.
pub fn default_log_level() -> (r: String)
    ensures
        r@ == "info"@,
{
    "info".to_owned()
}

/// The syslog facility when the configuration names none.
pub fn default_facility() -> (r: String)
    ensures
        r@ == "auth"@,
{
    "auth".to_owned()
}

impl Default for LoggingConfig {
    fn default() -> (r: LoggingConfig)
        ensures
            r.level@ == "info"@,
            r.facility@ == "auth"@,
    {
        LoggingConfig { level: default_log_level(), facility: default_facility() }
    }
}

/// The STS endpoint that the AWS settings select: the override when there
/// is one, else the regional endpoint.
pub open spec fn endpoint_for(aws: AwsConfig) -> Seq<char> {
    match aws.sts_endpoint {
        Some(e) => e@,
        None => "https://sts."@ + aws.region@ + ".amazonaws.com"@,
    }
}

/// Without an override, STS is reached over HTTPS, at the regional
/// endpoint of the configured region.
pub proof fn law_default_endpoint_is_https(aws: AwsConfig)
    requires
        aws.sts_endpoint is None,
    ensures
        crate::text::has_prefix(endpoint_for(aws), "https://"@),
        endpoint_for(aws) == "https://sts."@ + aws.region@ + ".amazonaws.com"@,
{
    reveal_strlit("https://sts.");
    reveal_strlit("https://");
    assert(endpoint_for(aws).take(8) =~= "https://"@);
}

/// Why a parsed configuration is refused, if it is: an empty region, no
/// allowed account, or no role mapping, checked in that order.
pub open spec fn config_rejection(c: Config) -> Option<Seq<char>> {
    if c.aws.region@.len() == 0 {
        Some("aws.region must not be empty"@)
    } else if c.aws.allowed_account_ids@.len() == 0 {
        Some("aws.allowed_account_ids must contain at least one account"@)
    } else if c.role_mapping@ == Map::<Seq<char>, Seq<Seq<char>>>::empty() {
        Some("role_mapping must contain at least one mapping"@)
    } else {
        None
    }
}

/// Computes the STS endpoint for the given AWS settings.
pub fn endpoint_of(aws: &AwsConfig) -> (r: String)
    ensures
        r@ == endpoint_for(*aws),
{
    match &aws.sts_endpoint {
        Some(e) => e.clone(),
        None => {
            let mut s = "https://sts.".to_owned();
            s.append(aws.region.as_str());
            s.append(".amazonaws.com");
            s
        },
    }
}

impl Config {
    /// Accepts a configuration that the TOML parser produced, or reports
    /// why not. A parse failure comes back with the parser's message after
    /// `TOML parse error: `; a parsed configuration is refused when its
    /// region is empty, it allows no account, or it maps no role.
    pub fn from_parsed(parsed: Result<Config, String>) -> (r: Result<Config, String>)
        ensures
            parsed matches Err(e) ==> r matches Err(m) && m@ == "TOML parse error: "@ + e@,
            parsed matches Ok(c) ==> {
                &&& (r is Ok <==> config_rejection(c) is None)
                &&& (r matches Ok(c2) ==> c2 == c)
                &&& (r matches Err(m) ==> config_rejection(c) == Some(m@))
            },
    {
        match parsed {
            Err(e) => {
                let mut m = "TOML parse error: ".to_owned();
                m.append(e.as_str());
                Err(m)
            },
            Ok(config) => {
                if config.aws.region.as_str().is_empty() {
                    return Err("aws.region must not be empty".to_owned());
                }
                if config.aws.allowed_account_ids.len() == 0 {
                    return Err("aws.allowed_account_ids must contain at least one account".to_owned());
                }
                if config.role_mapping.is_empty() {
                    return Err("role_mapping must contain at least one mapping".to_owned());
                }
                Ok(config)
            },
        }
    }

    /// The STS endpoint: the configured override, or
    /// `https://sts.<region>.amazonaws.com`.
    pub fn sts_endpoint(&self) -> (r: String)
        ensures
            r@ == endpoint_for(self.aws),
    {
        endpoint_of(&self.aws)
    }
}

} // verus!
