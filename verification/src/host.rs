//! Hosts and the host registry: a named machine with one or more hardware
//! addresses, and an exact, case-sensitive lookup by name in which a later
//! entry overrides an earlier one bearing the same name.

use vstd::prelude::*;

use crate::errors::WakeUpError;

verus! {

/// A named machine with the textual hardware addresses of its interfaces.
pub struct Host {
    /// The hardware addresses to wake, in the order they are woken.
    pub mac_addresses: Vec<String>,
    /// The lookup key in the registry.
    pub name: String,
}

impl Host {
    /// A host with the given hardware addresses under the given name.
    pub fn new(mac_addresses: Vec<String>, name: String) -> (h: Host)
        ensures
            h.mac_addresses == mac_addresses,
            h.name == name,
    {
        Host { mac_addresses, name }
    }

    /// The host's name, for display.
    pub fn display_name(&self) -> (r: String)
        ensures
            r@ == self.name@,
    {
        self.name.clone()
    }
}

/// The index of the last entry bearing `name`, or -1 when no entry does.
pub open spec fn last_match(hosts: Seq<Host>, name: Seq<char>) -> int
    decreases hosts.len(),
{
    if hosts.len() == 0 {
        -1
    } else if hosts.last().name@ == name {
        hosts.len() - 1
    } else {
        last_match(hosts.drop_last(), name)
    }
}

/// What `last_match` yields: an index below the length; when it is an index,
/// that entry bears the name and no later entry does.
pub proof fn lemma_last_match(hosts: Seq<Host>, name: Seq<char>)
    ensures
        -1 <= last_match(hosts, name) < hosts.len(),
        last_match(hosts, name) >= 0 ==> hosts[last_match(hosts, name)].name@ == name,
        forall|j: int| last_match(hosts, name) < j < hosts.len() ==> hosts[j].name@ != name,
    decreases hosts.len(),
{
    if hosts.len() == 0 {
    } else if hosts.last().name@ == name {
    } else {
        lemma_last_match(hosts.drop_last(), name);
        assert forall|j: int|
            last_match(hosts, name) < j < hosts.len() implies hosts[j].name@ != name by {
            if j < hosts.len() - 1 {
                assert(hosts.drop_last()[j] == hosts[j]);
            }
        }
    }
}

/// A name that no entry bears is never matched.
pub proof fn lemma_absent_name_not_matched(hosts: Seq<Host>, name: Seq<char>)
    requires
        forall|i: int| 0 <= i < hosts.len() ==> hosts[i].name@ != name,
    ensures
        last_match(hosts, name) == -1,
{
    lemma_last_match(hosts, name);
    if last_match(hosts, name) >= 0 {
        assert(hosts[last_match(hosts, name)].name@ == name);
    }
}

/// An in-memory mapping from host name to host, built once by an external
/// loader and immutable thereafter.
pub struct HostRegistry {
    /// The entries, in the order the loader supplied them.
    pub hosts: Vec<Host>,
}

impl HostRegistry {
    /// A registry over the given entries.
    pub fn new(hosts: Vec<Host>) -> (r: HostRegistry)
        ensures
            r.hosts == hosts,
    {
        HostRegistry { hosts }
    }

    /// Whether some entry bears `name`.
    pub open spec fn contains_name(&self, name: Seq<char>) -> bool {
        last_match(self.hosts@, name) >= 0
    }

    /// The host a lookup of `name` resolves to: the last entry bearing it.
    pub open spec fn resolved_host(&self, name: Seq<char>) -> Host {
        self.hosts@[last_match(self.hosts@, name)]
    }

    /// Exact, case-sensitive lookup.  Succeeds if and only if some entry
    /// bears `name`, and then yields the last such entry; an absent name is
    /// `UnknownHost`, never a partial or default result.
    pub fn resolve_by_name<'a>(&'a self, name: &String) -> (r: Result<&'a Host, WakeUpError>)
        ensures
            r is Ok <==> self.contains_name(name@),
            r matches Ok(h) ==> *h == self.resolved_host(name@),
            r matches Err(e) ==> e == WakeUpError::UnknownHost,
    {
        let mut i: usize = self.hosts.len();
        while i > 0
            invariant
                i <= self.hosts@.len(),
                forall|j: int| i <= j < self.hosts@.len() ==> self.hosts@[j].name@ != name@,
            decreases i,
        {
            i = i - 1;
            if self.hosts[i].name == *name {
                proof {
                    lemma_last_match(self.hosts@, name@);
                }
                return Result::Ok(&self.hosts[i]);
            }
        }
        proof {
            lemma_absent_name_not_matched(self.hosts@, name@);
        }
        Result::Err(WakeUpError::UnknownHost)
    }
}

} // verus!
