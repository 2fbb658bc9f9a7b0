//! The set of known-bad addresses that connections are checked against.
use vstd::prelude::*;

verus! {

/// A threat-indicator feed: a set of addresses, each held once.
pub struct ThreatFeed {
    bad_ips: Vec<String>,
}

impl ThreatFeed {
    /// The indicators, in the order they were loaded.
    pub closed spec fn indicators(&self) -> Seq<Seq<char>> {
        self.bad_ips@.map_values(|s: String| s@)
    }

    #[verifier::type_invariant]
    spec fn each_indicator_once(self) -> bool {
        self.indicators().no_duplicates()
    }

    /// The indicators that the feed starts with.
    pub open spec fn initial_indicators() -> Set<Seq<char>> {
        set!["1.1.1.1"@, "8.8.8.8"@]
    }

    /// A new feed holds two indicators.
    pub proof fn lemma_initial_size()
        ensures
            Self::initial_indicators().len() == 2,
    {
        reveal_strlit("1.1.1.1");
        reveal_strlit("8.8.8.8");
        assert("1.1.1.1"@[0] != "8.8.8.8"@[0]);
        let s = Self::initial_indicators();
        assert(s == Set::<Seq<char>>::empty().insert("1.1.1.1"@).insert("8.8.8.8"@));
    }

    /// A feed that holds the built-in indicators `1.1.1.1` and `8.8.8.8`.
    pub fn new() -> (feed: Self)
        ensures
            feed@ == Self::initial_indicators(),
    {
        let mut ips: Vec<String> = Vec::new();
        ips.push("1.1.1.1".to_owned());
        ips.push("8.8.8.8".to_owned());
        proof {
            reveal_strlit("1.1.1.1");
            reveal_strlit("8.8.8.8");
            let ind = ips@.map_values(|s: String| s@);
            assert(ind[0] == "1.1.1.1"@);
            assert(ind[1] == "8.8.8.8"@);
            assert("1.1.1.1"@[0] != "8.8.8.8"@[0]);
            assert(ind[0] != ind[1]);
            assert(ind.to_set() =~= set!["1.1.1.1"@, "8.8.8.8"@]) by {
                assert(ind.contains(ind[0]));
                assert(ind.contains(ind[1]));
            }
        }
        ThreatFeed { bad_ips: ips }
    }

    /// Reloads the feed. The indicators stay as they are.
    pub fn reload(&mut self)
        ensures
            *final(self) == *old(self),
    {
    }

    /// Whether `ip` is one of the feed's indicators.
    pub fn check_ip(&self, ip: &str) -> (hit: bool)
        ensures
            hit == self@.contains(ip@),
    {
        let target = ip.to_owned();
        let n = self.bad_ips.len();
        let mut i: usize = 0;
        while i < n
            invariant
                n == self.bad_ips@.len(),
                target@ == ip@,
                i <= n,
                forall|j: int| 0 <= j < i ==> self.indicators()[j] != ip@,
            decreases n - i,
        {
            if self.bad_ips[i] == target {
                assert(self.indicators()[i as int] == ip@);
                assert(self.indicators().contains(ip@));
                return true;
            }
            i = i + 1;
        }
        assert(!self.indicators().contains(ip@));
        false
    }

    /// Adds the indicator `ip`; the feed is unchanged when it already holds it.
    pub fn insert(&mut self, ip: String)
        ensures
            final(self)@ == old(self)@.insert(ip@),
    {
        proof {
            use_type_invariant(&*self);
        }
        if self.check_ip(ip.as_str()) {
            proof {
                assert(old(self)@.insert(ip@) =~= old(self)@);
            }
            return;
        }
        let mut ips: Vec<String> = Vec::new();
        std::mem::swap(&mut ips, &mut self.bad_ips);
        let ghost before = ips@.map_values(|s: String| s@);
        let ghost ip_view = ip@;
        ips.push(ip);
        proof {
            let after = ips@.map_values(|s: String| s@);
            assert(after =~= before.push(ip_view));
            assert(!before.contains(ip_view));
            assert(after.no_duplicates()) by {
                assert forall|a: int, b: int| 0 <= a < after.len() && 0 <= b < after.len() && a
                    != b implies after[a] != after[b] by {
                    if a < before.len() && b < before.len() {
                    } else if a < before.len() {
                        assert(after[a] == before[a]);
                    } else {
                        assert(after[b] == before[b]);
                    }
                }
            }
            assert(after.to_set() =~= before.to_set().insert(ip_view)) by {
                assert forall|x: Seq<char>| after.to_set().contains(x) <==> before.to_set().insert(
                    ip_view,
                ).contains(x) by {
                    if after.contains(x) {
                        let k = choose|k: int| 0 <= k < after.len() && after[k] == x;
                        if k < before.len() {
                            assert(before[k] == x);
                        }
                    }
                    if before.contains(x) {
                        let k = choose|k: int| 0 <= k < before.len() && before[k] == x;
                        assert(after[k] == x);
                    }
                    if x == ip_view {
                        assert(after[before.len() as int] == x);
                    }
                }
            }
        }
        self.bad_ips = ips;
    }

    /// The number of indicators.
    pub fn len(&self) -> (n: usize)
        ensures
            n == self@.len(),
    {
        proof {
            use_type_invariant(self);
            self.indicators().unique_seq_to_set();
        }
        self.bad_ips.len()
    }
}

impl View for ThreatFeed {
    type V = Set<Seq<char>>;

    closed spec fn view(&self) -> Set<Seq<char>> {
        self.indicators().to_set()
    }
}

} // verus!
