//! Registry of the syntropd suite daemons and resolution of their sockets.
use vstd::prelude::*;

use crate::text::{
    all_ascii, ascii_lower, chars_equal, chars_of, contains_chars, ends_with, is_white_space,
    lemma_trimmed, lowercase, occurs_in, strip_suffix_all, strip_suffix_repeatedly, to_lowercase,
    trim, trimmed,
};

verus! {

/// The daemons that make up the syntropd suite.
#[derive(Debug, Clone, Copy, PartialEq, Eq, Structural, Hash)]
pub enum DaemonKind {
    Sentry,
    Inferenced,
    Modeld,
    Contextd,
    Toold,
    Runtimed,
    Routerd,
}

/// Metadata and socket locator for one daemon of the suite.
#[derive(Debug, Clone, Copy)]
pub struct DaemonEndpoint {
    pub kind: DaemonKind,
    pub name: &'static str,
    pub unit_name: &'static str,
    pub default_socket: &'static str,
    pub env_var: &'static str,
    pub interface: &'static str,
    pub description: &'static str,
}

/// The registry, in lookup order.
pub open spec fn registry() -> Seq<DaemonEndpoint> {
    seq![
        DaemonEndpoint {
            kind: DaemonKind::Sentry,
            name: "sentry",
            unit_name: "sentry.service",
            default_socket: "/run/syntrop/io.syntrop.Sentry1",
            env_var: "SYNTROP_SENTRY_SOCKET",
            interface: "io.syntrop.Sentry1",
            description: "Autonomous Zero-Trust Supervisor & Incident Triage",
        },
        DaemonEndpoint {
            kind: DaemonKind::Inferenced,
            name: "inferenced",
            unit_name: "inferenced.service",
            default_socket: "/run/syntrop/io.syntrop.Inference1",
            env_var: "SYNTROP_INFERENCE_SOCKET",
            interface: "io.syntrop.Inference1",
            description: "Heterogeneous Hardware Arbiter & Memory Broker",
        },
        DaemonEndpoint {
            kind: DaemonKind::Modeld,
            name: "modeld",
            unit_name: "modeld.service",
            default_socket: "/run/syntrop/io.syntrop.Model1",
            env_var: "SYNTROP_MODELD_SOCKET",
            interface: "io.syntrop.Model1",
            description: "CAS Model Registry & Layer Deduplicator",
        },
        DaemonEndpoint {
            kind: DaemonKind::Contextd,
            name: "contextd",
            unit_name: "contextd.service",
            default_socket: "/run/syntrop/io.syntrop.Context1",
            env_var: "SYNTROP_CONTEXTD_SOCKET",
            interface: "io.syntrop.Context1",
            description: "System Chronology & Configuration Drift Tracker",
        },
        DaemonEndpoint {
            kind: DaemonKind::Toold,
            name: "toold",
            unit_name: "toold.service",
            default_socket: "/run/syntrop/io.syntrop.Tool1",
            env_var: "SYNTROP_TOOLD_SOCKET",
            interface: "io.syntrop.Tool1",
            description: "Sandboxed Agentic Action & Execution Broker",
        },
        DaemonEndpoint {
            kind: DaemonKind::Runtimed,
            name: "runtimed",
            unit_name: "runtimed.service",
            default_socket: "/run/syntrop/io.syntrop.Runtime1",
            env_var: "SYNTROP_RUNTIMED_SOCKET",
            interface: "io.syntrop.Runtime1",
            description: "Headless Neural Model Execution Engine",
        },
        DaemonEndpoint {
            kind: DaemonKind::Routerd,
            name: "routerd",
            unit_name: "routerd.service",
            default_socket: "/run/syntrop/io.syntrop.Router1",
            env_var: "SYNTROP_ROUTER_SOCKET",
            interface: "io.syntrop.Router1",
            description: "Inference Request Router & Load Balancer",
        },
    ]
}

/// Whether the cleaned lookup key `key` designates `d`: it is the daemon's
/// name, its unit name without `.service`, or a text that holds the name.
pub open spec fn designates(d: DaemonEndpoint, key: Seq<char>) -> bool {
    ||| d.name@ == key
    ||| strip_suffix_all(d.unit_name@, ".service"@) == key
    ||| occurs_in(key, d.name@)
}

/// The first endpoint of `eps` that `key` designates.
pub open spec fn first_designated(eps: Seq<DaemonEndpoint>, key: Seq<char>) -> Option<
    DaemonEndpoint,
>
    decreases eps.len(),
{
    if eps.len() == 0 {
        None
    } else if designates(eps[0], key) {
        Some(eps[0])
    } else {
        first_designated(eps.drop_first(), key)
    }
}

/// The key a lookup by `name` searches with: `name` trimmed, then lower-cased.
pub open spec fn lookup_key(name: Seq<char>) -> Seq<char> {
    lowercase(trimmed(name))
}

/// The socket path of `d` given the value of its environment variable, if
/// the variable is set: the value when it holds more than white space, else
/// the default path.
pub open spec fn resolved_socket(d: DaemonEndpoint, env_value: Option<Seq<char>>) -> Seq<char> {
    match env_value {
        Some(v) => if trimmed(v).len() > 0 {
            v
        } else {
            d.default_socket@
        },
        None => d.default_socket@,
    }
}

impl DaemonEndpoint {
    /// All daemons of the suite, in registry order.
    pub fn all() -> (r: Vec<DaemonEndpoint>)
        ensures
            r@ == registry(),
    {
        let mut r: Vec<DaemonEndpoint> = Vec::new();
        r.push(
            DaemonEndpoint {
                kind: DaemonKind::Sentry,
                name: "sentry",
                unit_name: "sentry.service",
                default_socket: "/run/syntrop/io.syntrop.Sentry1",
                env_var: "SYNTROP_SENTRY_SOCKET",
                interface: "io.syntrop.Sentry1",
                description: "Autonomous Zero-Trust Supervisor & Incident Triage",
            },
        );
        r.push(
            DaemonEndpoint {
                kind: DaemonKind::Inferenced,
                name: "inferenced",
                unit_name: "inferenced.service",
                default_socket: "/run/syntrop/io.syntrop.Inference1",
                env_var: "SYNTROP_INFERENCE_SOCKET",
                interface: "io.syntrop.Inference1",
                description: "Heterogeneous Hardware Arbiter & Memory Broker",
            },
        );
        r.push(
            DaemonEndpoint {
                kind: DaemonKind::Modeld,
                name: "modeld",
                unit_name: "modeld.service",
                default_socket: "/run/syntrop/io.syntrop.Model1",
                env_var: "SYNTROP_MODELD_SOCKET",
                interface: "io.syntrop.Model1",
                description: "CAS Model Registry & Layer Deduplicator",
            },
        );
        r.push(
            DaemonEndpoint {
                kind: DaemonKind::Contextd,
                name: "contextd",
                unit_name: "contextd.service",
                default_socket: "/run/syntrop/io.syntrop.Context1",
                env_var: "SYNTROP_CONTEXTD_SOCKET",
                interface: "io.syntrop.Context1",
                description: "System Chronology & Configuration Drift Tracker",
            },
        );
        r.push(
            DaemonEndpoint {
                kind: DaemonKind::Toold,
                name: "toold",
                unit_name: "toold.service",
                default_socket: "/run/syntrop/io.syntrop.Tool1",
                env_var: "SYNTROP_TOOLD_SOCKET",
                interface: "io.syntrop.Tool1",
                description: "Sandboxed Agentic Action & Execution Broker",
            },
        );
        r.push(
            DaemonEndpoint {
                kind: DaemonKind::Runtimed,
                name: "runtimed",
                unit_name: "runtimed.service",
                default_socket: "/run/syntrop/io.syntrop.Runtime1",
                env_var: "SYNTROP_RUNTIMED_SOCKET",
                interface: "io.syntrop.Runtime1",
                description: "Headless Neural Model Execution Engine",
            },
        );
        r.push(
            DaemonEndpoint {
                kind: DaemonKind::Routerd,
                name: "routerd",
                unit_name: "routerd.service",
                default_socket: "/run/syntrop/io.syntrop.Router1",
                env_var: "SYNTROP_ROUTER_SOCKET",
                interface: "io.syntrop.Router1",
                description: "Inference Request Router & Load Balancer",
            },
        );
        assert(r@ == registry());
        r
    }

    /// Whether the cleaned key designates this endpoint.
    fn is_designated_by(&self, key: &Vec<char>) -> (r: bool)
        ensures
            r == designates(*self, key@),
    {
        let name = chars_of(self.name);
        if chars_equal(&name, key) {
            return true;
        }
        let unit = chars_of(self.unit_name);
        let suffix = chars_of(".service");
        proof {
            reveal_strlit(".service");
        }
        let stem = strip_suffix_repeatedly(&unit, &suffix);
        if chars_equal(&stem, key) {
            return true;
        }
        contains_chars(key, &name)
    }

    /// Locates a daemon by its canonical name, its unit name, or a text that
    /// holds its name; the name is trimmed and lower-cased first, and the
    /// first daemon in registry order that matches is returned.
    pub fn from_name(name: &str) -> (r: Option<DaemonEndpoint>)
        ensures
            r == first_designated(registry(), lookup_key(name@)),
            all_ascii(trimmed(name@)) ==> r == first_designated(
                registry(),
                trimmed(name@).map_values(|c: char| ascii_lower(c)),
            ),
    {
        let t = trim(name);
        let ts = crate::text::string_of(&t);
        let lowered = to_lowercase(ts.as_str());
        let key = chars_of(lowered.as_str());
        let eps = DaemonEndpoint::all();
        let mut i: usize = 0;
        assert(registry().subrange(0, eps.len() as int) == registry());
        while i < eps.len()
            invariant
                eps@ == registry(),
                i <= eps.len(),
                key@ == lookup_key(name@),
                all_ascii(trimmed(name@)) ==> key@ == trimmed(name@).map_values(
                    |c: char| ascii_lower(c),
                ),
                first_designated(registry(), key@) == first_designated(
                    registry().subrange(i as int, eps.len() as int),
                    key@,
                ),
            decreases eps.len() - i,
        {
            let ghost rest = registry().subrange(i as int, eps.len() as int);
            assert(rest[0] == eps@[i as int]);
            assert(rest.drop_first() == registry().subrange(i + 1, eps.len() as int));
            if eps[i].is_designated_by(&key) {
                return Some(eps[i]);
            }
            i = i + 1;
        }
        None
    }

    /// The socket path, given the value of the endpoint's environment
    /// variable (`None` when it is not set): an override that holds more
    /// than white space wins over the default path.
    pub fn socket_path(&self, env_value: Option<&str>) -> (r: String)
        ensures
            r@ == resolved_socket(
                *self,
                match env_value {
                    Some(v) => Some(v@),
                    None => None,
                },
            ),
    {
        match env_value {
            Some(v) => {
                let t = trim(v);
                if t.len() > 0 {
                    return String::from_str(v);
                }
                String::from_str(self.default_socket)
            },
            None => String::from_str(self.default_socket),
        }
    }
}


// ---------------------------------------------------------------------------
// Lookup laws
// ---------------------------------------------------------------------------

proof fn lemma_trim_keeps(s: Seq<char>)
    requires
        s.len() > 0,
        !is_white_space(s[0]),
        !is_white_space(s.last()),
    ensures
        trimmed(s) == s,
{
}

proof fn lemma_absent(s: Seq<char>, p: Seq<char>)
    requires
        p.len() >= 3,
        forall|i: int|
            0 <= i <= s.len() - p.len() ==> !(#[trigger] s[i] == p[0] && s[i + 1] == p[1] && s[i
                + 2] == p[2]),
    ensures
        !occurs_in(s, p),
{
    assert forall|i: int| 0 <= i <= s.len() - p.len() implies #[trigger] s.subrange(i, i + p.len())
        != p by {
        if s.subrange(i, i + p.len()) == p {
            assert(s.subrange(i, i + p.len())[0] == s[i]);
            assert(s.subrange(i, i + p.len())[1] == s[i + 1]);
            assert(s.subrange(i, i + p.len())[2] == s[i + 2]);
        }
    }
}

proof fn lemma_strip_service(x: Seq<char>, u: Seq<char>)
    requires
        u == x + ".service"@,
        !ends_with(x, ".service"@),
    ensures
        strip_suffix_all(u, ".service"@) == x,
{
    reveal_strlit(".service");
    assert(u.subrange(u.len() - 8, u.len() as int) == ".service"@);
    assert(u.subrange(0, u.len() - 8) == x);
    assert(strip_suffix_all(x, ".service"@) == x);
}

proof fn lemma_first_designated_at(eps: Seq<DaemonEndpoint>, key: Seq<char>, k: int)
    requires
        0 <= k < eps.len(),
        forall|j: int| 0 <= j < k ==> !designates(#[trigger] eps[j], key),
        designates(eps[k], key),
    ensures
        first_designated(eps, key) == Some(eps[k]),
    decreases k,
{
    if k > 0 {
        assert(!designates(eps[0], key));
        let rest = eps.drop_first();
        assert forall|j: int| 0 <= j < k - 1 implies !designates(#[trigger] rest[j], key) by {
            assert(rest[j] == eps[j + 1]);
        }
        lemma_first_designated_at(rest, key, k - 1);
    }
}

/// Each unit name is the daemon's name with `.service`, which a lookup
/// strips again.
proof fn lemma_unit_stem(j: int)
    requires
        0 <= j < registry().len(),
    ensures
        strip_suffix_all(registry()[j].unit_name@, ".service"@) == registry()[j].name@,
{
    reveal_strlit(".service");
    if j == 0 {
        reveal_strlit("sentry");
        reveal_strlit("sentry.service");
        assert("sentry"@ + ".service"@ == "sentry.service"@);
        lemma_strip_service("sentry"@, "sentry.service"@);
    } else if j == 1 {
        reveal_strlit("inferenced");
        reveal_strlit("inferenced.service");
        assert("inferenced"@ + ".service"@ == "inferenced.service"@);
        assert("inferenced"@.subrange(2, 10)[7] != ".service"@[7]);
        lemma_strip_service("inferenced"@, "inferenced.service"@);
    } else if j == 2 {
        reveal_strlit("modeld");
        reveal_strlit("modeld.service");
        assert("modeld"@ + ".service"@ == "modeld.service"@);
        lemma_strip_service("modeld"@, "modeld.service"@);
    } else if j == 3 {
        reveal_strlit("contextd");
        reveal_strlit("contextd.service");
        assert("contextd"@ + ".service"@ == "contextd.service"@);
        assert("contextd"@.subrange(0, 8)[7] != ".service"@[7]);
        lemma_strip_service("contextd"@, "contextd.service"@);
    } else if j == 4 {
        reveal_strlit("toold");
        reveal_strlit("toold.service");
        assert("toold"@ + ".service"@ == "toold.service"@);
        lemma_strip_service("toold"@, "toold.service"@);
    } else if j == 5 {
        reveal_strlit("runtimed");
        reveal_strlit("runtimed.service");
        assert("runtimed"@ + ".service"@ == "runtimed.service"@);
        assert("runtimed"@.subrange(0, 8)[7] != ".service"@[7]);
        lemma_strip_service("runtimed"@, "runtimed.service"@);
    } else {
        reveal_strlit("routerd");
        reveal_strlit("routerd.service");
        assert("routerd"@ + ".service"@ == "routerd.service"@);
        lemma_strip_service("routerd"@, "routerd.service"@);
    }
}

/// No daemon's name is the name or the unit name of a later daemon, nor
/// occurs in either of them.
proof fn lemma_names_apart(j: int, k: int)
    requires
        0 <= j < k < registry().len(),
    ensures
        registry()[j].name@ != registry()[k].name@,
        registry()[j].name@ != registry()[k].unit_name@,
        !occurs_in(registry()[k].name@, registry()[j].name@),
        !occurs_in(registry()[k].unit_name@, registry()[j].name@),
{
    if j == 0 && k == 1 {
        reveal_strlit("inferenced");
        reveal_strlit("inferenced.service");
        reveal_strlit("sentry");
        assert("sentry"@.len() != "inferenced"@.len());
        assert("sentry"@.len() != "inferenced.service"@.len());
        lemma_absent("inferenced"@, "sentry"@);
        lemma_absent("inferenced.service"@, "sentry"@);
    } else if j == 0 && k == 2 {
        reveal_strlit("modeld");
        reveal_strlit("modeld.service");
        reveal_strlit("sentry");
        assert("sentry"@[0] != "modeld"@[0]);
        assert("sentry"@.len() != "modeld.service"@.len());
        lemma_absent("modeld"@, "sentry"@);
        lemma_absent("modeld.service"@, "sentry"@);
    } else if j == 1 && k == 2 {
        reveal_strlit("inferenced");
        reveal_strlit("modeld");
        reveal_strlit("modeld.service");
        assert("inferenced"@.len() != "modeld"@.len());
        assert("inferenced"@.len() != "modeld.service"@.len());
        lemma_absent("modeld.service"@, "inferenced"@);
    } else if j == 0 && k == 3 {
        reveal_strlit("contextd");
        reveal_strlit("contextd.service");
        reveal_strlit("sentry");
        assert("sentry"@.len() != "contextd"@.len());
        assert("sentry"@.len() != "contextd.service"@.len());
        lemma_absent("contextd"@, "sentry"@);
        lemma_absent("contextd.service"@, "sentry"@);
    } else if j == 1 && k == 3 {
        reveal_strlit("contextd");
        reveal_strlit("contextd.service");
        reveal_strlit("inferenced");
        assert("inferenced"@.len() != "contextd"@.len());
        assert("inferenced"@.len() != "contextd.service"@.len());
        lemma_absent("contextd.service"@, "inferenced"@);
    } else if j == 2 && k == 3 {
        reveal_strlit("contextd");
        reveal_strlit("contextd.service");
        reveal_strlit("modeld");
        assert("modeld"@.len() != "contextd"@.len());
        assert("modeld"@.len() != "contextd.service"@.len());
        lemma_absent("contextd"@, "modeld"@);
        lemma_absent("contextd.service"@, "modeld"@);
    } else if j == 0 && k == 4 {
        reveal_strlit("sentry");
        reveal_strlit("toold");
        reveal_strlit("toold.service");
        assert("sentry"@.len() != "toold"@.len());
        assert("sentry"@.len() != "toold.service"@.len());
        lemma_absent("toold.service"@, "sentry"@);
    } else if j == 1 && k == 4 {
        reveal_strlit("inferenced");
        reveal_strlit("toold");
        reveal_strlit("toold.service");
        assert("inferenced"@.len() != "toold"@.len());
        assert("inferenced"@.len() != "toold.service"@.len());
        lemma_absent("toold.service"@, "inferenced"@);
    } else if j == 2 && k == 4 {
        reveal_strlit("modeld");
        reveal_strlit("toold");
        reveal_strlit("toold.service");
        assert("modeld"@.len() != "toold"@.len());
        assert("modeld"@.len() != "toold.service"@.len());
        lemma_absent("toold.service"@, "modeld"@);
    } else if j == 3 && k == 4 {
        reveal_strlit("contextd");
        reveal_strlit("toold");
        reveal_strlit("toold.service");
        assert("contextd"@.len() != "toold"@.len());
        assert("contextd"@.len() != "toold.service"@.len());
        lemma_absent("toold.service"@, "contextd"@);
    } else if j == 0 && k == 5 {
        reveal_strlit("runtimed");
        reveal_strlit("runtimed.service");
        reveal_strlit("sentry");
        assert("sentry"@.len() != "runtimed"@.len());
        assert("sentry"@.len() != "runtimed.service"@.len());
        lemma_absent("runtimed"@, "sentry"@);
        lemma_absent("runtimed.service"@, "sentry"@);
    } else if j == 1 && k == 5 {
        reveal_strlit("inferenced");
        reveal_strlit("runtimed");
        reveal_strlit("runtimed.service");
        assert("inferenced"@.len() != "runtimed"@.len());
        assert("inferenced"@.len() != "runtimed.service"@.len());
        lemma_absent("runtimed.service"@, "inferenced"@);
    } else if j == 2 && k == 5 {
        reveal_strlit("modeld");
        reveal_strlit("runtimed");
        reveal_strlit("runtimed.service");
        assert("modeld"@.len() != "runtimed"@.len());
        assert("modeld"@.len() != "runtimed.service"@.len());
        lemma_absent("runtimed"@, "modeld"@);
        lemma_absent("runtimed.service"@, "modeld"@);
    } else if j == 3 && k == 5 {
        reveal_strlit("contextd");
        reveal_strlit("runtimed");
        reveal_strlit("runtimed.service");
        assert("contextd"@[0] != "runtimed"@[0]);
        assert("contextd"@.len() != "runtimed.service"@.len());
        lemma_absent("runtimed"@, "contextd"@);
        lemma_absent("runtimed.service"@, "contextd"@);
    } else if j == 4 && k == 5 {
        reveal_strlit("runtimed");
        reveal_strlit("runtimed.service");
        reveal_strlit("toold");
        assert("toold"@.len() != "runtimed"@.len());
        assert("toold"@.len() != "runtimed.service"@.len());
        lemma_absent("runtimed"@, "toold"@);
        lemma_absent("runtimed.service"@, "toold"@);
    } else if j == 0 && k == 6 {
        reveal_strlit("routerd");
        reveal_strlit("routerd.service");
        reveal_strlit("sentry");
        assert("sentry"@.len() != "routerd"@.len());
        assert("sentry"@.len() != "routerd.service"@.len());
        lemma_absent("routerd"@, "sentry"@);
        lemma_absent("routerd.service"@, "sentry"@);
    } else if j == 1 && k == 6 {
        reveal_strlit("inferenced");
        reveal_strlit("routerd");
        reveal_strlit("routerd.service");
        assert("inferenced"@.len() != "routerd"@.len());
        assert("inferenced"@.len() != "routerd.service"@.len());
        lemma_absent("routerd.service"@, "inferenced"@);
    } else if j == 2 && k == 6 {
        reveal_strlit("modeld");
        reveal_strlit("routerd");
        reveal_strlit("routerd.service");
        assert("modeld"@.len() != "routerd"@.len());
        assert("modeld"@.len() != "routerd.service"@.len());
        lemma_absent("routerd"@, "modeld"@);
        lemma_absent("routerd.service"@, "modeld"@);
    } else if j == 3 && k == 6 {
        reveal_strlit("contextd");
        reveal_strlit("routerd");
        reveal_strlit("routerd.service");
        assert("contextd"@.len() != "routerd"@.len());
        assert("contextd"@.len() != "routerd.service"@.len());
        lemma_absent("routerd.service"@, "contextd"@);
    } else if j == 4 && k == 6 {
        reveal_strlit("routerd");
        reveal_strlit("routerd.service");
        reveal_strlit("toold");
        assert("toold"@.len() != "routerd"@.len());
        assert("toold"@.len() != "routerd.service"@.len());
        lemma_absent("routerd"@, "toold"@);
        lemma_absent("routerd.service"@, "toold"@);
    } else if j == 5 && k == 6 {
        reveal_strlit("routerd");
        reveal_strlit("routerd.service");
        reveal_strlit("runtimed");
        assert("runtimed"@.len() != "routerd"@.len());
        assert("runtimed"@.len() != "routerd.service"@.len());
        lemma_absent("routerd.service"@, "runtimed"@);
    }
}

/// Every registered name and unit name is made of lower-case ASCII letters
/// and dots.
proof fn lemma_plain_names(i: int)
    requires
        0 <= i < registry().len(),
    ensures
        plain(registry()[i].name@),
        plain(registry()[i].unit_name@),
{
    if i == 0 {
        reveal_strlit("sentry");
        reveal_strlit("sentry.service");
    } else if i == 1 {
        reveal_strlit("inferenced");
        reveal_strlit("inferenced.service");
    } else if i == 2 {
        reveal_strlit("modeld");
        reveal_strlit("modeld.service");
    } else if i == 3 {
        reveal_strlit("contextd");
        reveal_strlit("contextd.service");
    } else if i == 4 {
        reveal_strlit("toold");
        reveal_strlit("toold.service");
    } else if i == 5 {
        reveal_strlit("runtimed");
        reveal_strlit("runtimed.service");
    } else {
        reveal_strlit("routerd");
        reveal_strlit("routerd.service");
    }
}

/// Whether `s` is a non-empty text of lower-case ASCII letters and dots.
pub open spec fn plain(s: Seq<char>) -> bool {
    s.len() > 0 && forall|i: int|
        0 <= i < s.len() ==> (97 <= #[trigger] (s[i] as u32) <= 122 || s[i] == '.')
}

/// Whether `u` is the ASCII upper-case form of the lower-case letter `c`.
pub open spec fn is_upper_of(u: char, c: char) -> bool {
    97 <= (c as u32) <= 122 && (u as u32) + 32 == (c as u32)
}

/// Whether `t` is `s` with any of its letters written in upper case.
pub open spec fn case_variant(t: Seq<char>, s: Seq<char>) -> bool {
    t.len() == s.len() && forall|i: int|
        0 <= i < s.len() ==> #[trigger] t[i] == s[i] || is_upper_of(t[i], s[i])
}

/// A case variant of a plain text is ASCII, has no surrounding white
/// space, and lower-cases back to the text.
proof fn lemma_case_variant_key(t: Seq<char>, s: Seq<char>)
    requires
        plain(s),
        case_variant(t, s),
    ensures
        all_ascii(trimmed(t)),
        trimmed(t).map_values(|c: char| ascii_lower(c)) == s,
{
    assert(t[0] == s[0] || is_upper_of(t[0], s[0]));
    assert(t[t.len() - 1] == s[s.len() - 1] || is_upper_of(t[t.len() - 1], s[s.len() - 1]));
    lemma_trim_keeps(t);
    assert forall|i: int| 0 <= i < t.len() implies (#[trigger] t[i] as u32) < 128 by {
        assert(t[i] == s[i] || is_upper_of(t[i], s[i]));
    }
    assert forall|i: int| 0 <= i < t.len() implies #[trigger] ascii_lower(t[i]) == s[i] by {
        assert(t[i] == s[i] || is_upper_of(t[i], s[i]));
        vstd::utf8::char_u32_cast(s[i], s[i] as u32);
    }
    assert(t.map_values(|c: char| ascii_lower(c)) =~= s);
}

/// A lookup by a registered daemon's name, or by its unit name, written in
/// any mix of upper and lower case, finds that daemon: the key a lookup
/// computes from such a text is the lower-case name itself, and no daemon
/// earlier in the registry answers to it.
pub proof fn lemma_registered_lookup(i: int)
    requires
        0 <= i < registry().len(),
    ensures
        forall|t: Seq<char>|
            #[trigger] case_variant(t, registry()[i].name@) ==> all_ascii(trimmed(t))
                && first_designated(registry(), trimmed(t).map_values(|c: char| ascii_lower(c)))
                == Some(registry()[i]),
        forall|t: Seq<char>|
            #[trigger] case_variant(t, registry()[i].unit_name@) ==> all_ascii(trimmed(t))
                && first_designated(registry(), trimmed(t).map_values(|c: char| ascii_lower(c)))
                == Some(registry()[i]),
{
    let eps = registry();
    let d = eps[i];
    lemma_plain_names(i);
    lemma_registry_layout(i);
    assert forall|j: int| 0 <= j < i implies !designates(#[trigger] eps[j], d.name@) by {
        lemma_names_apart(j, i);
        lemma_unit_stem(j);
    }
    lemma_first_designated_at(eps, d.name@, i);
    assert forall|j: int| 0 <= j < i implies !designates(#[trigger] eps[j], d.unit_name@) by {
        lemma_names_apart(j, i);
        lemma_unit_stem(j);
    }
    assert(d.unit_name@.subrange(0int, 0int + d.name@.len()) == d.name@);
    assert(designates(d, d.unit_name@));
    lemma_first_designated_at(eps, d.unit_name@, i);
    assert forall|t: Seq<char>| #[trigger] case_variant(t, d.name@) implies all_ascii(trimmed(t))
        && first_designated(eps, trimmed(t).map_values(|c: char| ascii_lower(c))) == Some(d) by {
        lemma_case_variant_key(t, d.name@);
    }
    assert forall|t: Seq<char>| #[trigger] case_variant(t, d.unit_name@) implies all_ascii(
        trimmed(t),
    ) && first_designated(eps, trimmed(t).map_values(|c: char| ascii_lower(c))) == Some(d) by {
        lemma_case_variant_key(t, d.unit_name@);
    }
}


/// Every daemon of the registry runs as the systemd unit named after it,
/// and listens by default on the socket named after its Varlink interface
/// in `/run/syntrop/`.
pub proof fn lemma_registry_layout(i: int)
    requires
        0 <= i < registry().len(),
    ensures
        registry()[i].unit_name@ == registry()[i].name@ + ".service"@,
        registry()[i].default_socket@ == "/run/syntrop/"@ + registry()[i].interface@,
{
    reveal_strlit(".service");
    reveal_strlit("/run/syntrop/");
    if i == 0 {
        reveal_strlit("sentry");
        reveal_strlit("sentry.service");
        reveal_strlit("io.syntrop.Sentry1");
        reveal_strlit("/run/syntrop/io.syntrop.Sentry1");
        assert("sentry.service"@ =~= "sentry"@ + ".service"@);
        assert("/run/syntrop/io.syntrop.Sentry1"@ =~= "/run/syntrop/"@ + "io.syntrop.Sentry1"@);
    } else if i == 1 {
        reveal_strlit("inferenced");
        reveal_strlit("inferenced.service");
        reveal_strlit("io.syntrop.Inference1");
        reveal_strlit("/run/syntrop/io.syntrop.Inference1");
        assert("inferenced.service"@ =~= "inferenced"@ + ".service"@);
        assert("/run/syntrop/io.syntrop.Inference1"@ =~= "/run/syntrop/"@ + "io.syntrop.Inference1"@);
    } else if i == 2 {
        reveal_strlit("modeld");
        reveal_strlit("modeld.service");
        reveal_strlit("io.syntrop.Model1");
        reveal_strlit("/run/syntrop/io.syntrop.Model1");
        assert("modeld.service"@ =~= "modeld"@ + ".service"@);
        assert("/run/syntrop/io.syntrop.Model1"@ =~= "/run/syntrop/"@ + "io.syntrop.Model1"@);
    } else if i == 3 {
        reveal_strlit("contextd");
        reveal_strlit("contextd.service");
        reveal_strlit("io.syntrop.Context1");
        reveal_strlit("/run/syntrop/io.syntrop.Context1");
        assert("contextd.service"@ =~= "contextd"@ + ".service"@);
        assert("/run/syntrop/io.syntrop.Context1"@ =~= "/run/syntrop/"@ + "io.syntrop.Context1"@);
    } else if i == 4 {
        reveal_strlit("toold");
        reveal_strlit("toold.service");
        reveal_strlit("io.syntrop.Tool1");
        reveal_strlit("/run/syntrop/io.syntrop.Tool1");
        assert("toold.service"@ =~= "toold"@ + ".service"@);
        assert("/run/syntrop/io.syntrop.Tool1"@ =~= "/run/syntrop/"@ + "io.syntrop.Tool1"@);
    } else if i == 5 {
        reveal_strlit("runtimed");
        reveal_strlit("runtimed.service");
        reveal_strlit("io.syntrop.Runtime1");
        reveal_strlit("/run/syntrop/io.syntrop.Runtime1");
        assert("runtimed.service"@ =~= "runtimed"@ + ".service"@);
        assert("/run/syntrop/io.syntrop.Runtime1"@ =~= "/run/syntrop/"@ + "io.syntrop.Runtime1"@);
    } else {
        reveal_strlit("routerd");
        reveal_strlit("routerd.service");
        reveal_strlit("io.syntrop.Router1");
        reveal_strlit("/run/syntrop/io.syntrop.Router1");
        assert("routerd.service"@ =~= "routerd"@ + ".service"@);
        assert("/run/syntrop/io.syntrop.Router1"@ =~= "/run/syntrop/"@ + "io.syntrop.Router1"@);
    }
}

/// A socket override wins whenever it holds a character that is not white
/// space, and is then used as given; an override of white space alone, an
/// empty one, or none leaves the default path.
pub proof fn lemma_socket_override(d: DaemonEndpoint, v: Seq<char>)
    ensures
        (exists|i: int| 0 <= i < v.len() && !is_white_space(#[trigger] v[i])) ==> resolved_socket(
            d,
            Some(v),
        ) == v,
        (forall|i: int| 0 <= i < v.len() ==> is_white_space(#[trigger] v[i])) ==> resolved_socket(
            d,
            Some(v),
        ) == d.default_socket@,
        resolved_socket(d, None) == d.default_socket@,
{
    lemma_trimmed(v);
    let (a, b) = choose|a: int, b: int|
        0 <= a <= b <= v.len() && trimmed(v) == v.subrange(a, b) && (forall|i: int|
            0 <= i < a ==> is_white_space(#[trigger] v[i])) && (forall|i: int|
            b <= i < v.len() ==> is_white_space(#[trigger] v[i]));
    if exists|i: int| 0 <= i < v.len() && !is_white_space(#[trigger] v[i]) {
        let i = choose|i: int| 0 <= i < v.len() && !is_white_space(#[trigger] v[i]);
        if trimmed(v).len() == 0 {
            assert(a == b);
            if i < a {
                assert(is_white_space(v[i]));
            } else {
                assert(is_white_space(v[i]));
            }
        }
    }
    if forall|i: int| 0 <= i < v.len() ==> is_white_space(#[trigger] v[i]) {
        if trimmed(v).len() > 0 {
            assert(trimmed(v)[0] == v[a]);
            assert(is_white_space(v[a]));
        }
    }
}

} // verus!
