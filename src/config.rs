use vstd::prelude::*;
use vstd::utf8::encode_utf8;

use crate::net::{network_contains, IpAddress, IpNetwork, SocketAddress};

verus! {

/// The port the server listens on unless told otherwise.
pub const DEFAULT_PORT: u16 = 1080;

/// The number of connections served at once unless told otherwise.
pub const DEFAULT_LIMIT: u32 = 255;

/// The server's settings, fixed for the life of the process.
pub struct Config {
    /// Username and Argon2 PHC hash of each user. `add_user` keeps the
    /// names unique, so that the table is a map from name to hash; a table
    /// built otherwise that holds a name twice answers with its first entry.
    pub users: Vec<(String, String)>,
    /// Networks allowed to connect; empty allows all.
    pub whitelist: Vec<IpNetwork>,
    /// Networks refused before anything else is looked at.
    pub blacklist: Vec<IpNetwork>,
    /// Whether USERNAME/PASSWORD is required.
    pub require_auth: bool,
    /// Where the server listens.
    pub bind_addr: SocketAddress,
    /// The most connections served at once.
    pub limit: u32,
}

/// Why a connection was turned away before its greeting was read.
#[derive(Clone, Copy, Debug, PartialEq, Eq, Structural)]
pub enum DenyReason {
    ConnectionLimit,
    Blacklisted,
    NotWhitelisted,
}

/// Some network of `nets` holds `ip`.
pub open spec fn any_contains(nets: Seq<IpNetwork>, ip: IpAddress) -> bool {
    exists|i: int| 0 <= i < nets.len() && network_contains(#[trigger] nets[i]@, ip)
}

/// The PHC hash stored for the first user whose name encodes to `name`.
pub open spec fn lookup_user(users: Seq<(String, String)>, name: Seq<u8>) -> Option<String>
    decreases users.len(),
{
    if users.len() == 0 {
        None
    } else if encode_utf8(users[0].0@) == name {
        Some(users[0].1)
    } else {
        lookup_user(users.drop_first(), name)
    }
}

/// No two entries of `users` have names with the same bytes.
pub open spec fn names_unique(users: Seq<(String, String)>) -> bool {
    forall|i: int, j: int|
        0 <= i < users.len() && 0 <= j < users.len() && i != j ==> encode_utf8(
            #[trigger] users[i].0@,
        ) != encode_utf8(#[trigger] users[j].0@)
}

proof fn lemma_lookup_none(users: Seq<(String, String)>, name: Seq<u8>)
    ensures
        lookup_user(users, name) is None <==> forall|i: int|
            0 <= i < users.len() ==> encode_utf8(#[trigger] users[i].0@) != name,
    decreases users.len(),
{
    if users.len() > 0 {
        lemma_lookup_none(users.drop_first(), name);
        assert forall|i: int| 0 < i < users.len() implies users[i] == #[trigger] users.drop_first()[i
            - 1] by {}
        if lookup_user(users, name) is None {
            assert forall|i: int| 0 <= i < users.len() implies encode_utf8(#[trigger] users[i].0@)
                != name by {
                if i > 0 {
                    assert(users[i] == users.drop_first()[i - 1]);
                }
            }
        }
    }
}

/// In a table whose names are unique, the hash found for a name is the one
/// stored with it.
pub proof fn lemma_lookup_unique(users: Seq<(String, String)>, name: Seq<u8>, i: int)
    requires
        names_unique(users),
        0 <= i < users.len(),
        encode_utf8(users[i].0@) == name,
    ensures
        lookup_user(users, name) == Some(users[i].1),
    decreases users.len(),
{
    if i > 0 {
        assert(encode_utf8(users[0].0@) != encode_utf8(users[i].0@));
        let rest = users.drop_first();
        assert(rest[i - 1] == users[i]);
        assert forall|a: int, b: int|
            0 <= a < rest.len() && 0 <= b < rest.len() && a != b implies encode_utf8(
            #[trigger] rest[a].0@,
        ) != encode_utf8(#[trigger] rest[b].0@) by {
            assert(rest[a] == users[a + 1] && rest[b] == users[b + 1]);
        }
        lemma_lookup_unique(rest, name, i - 1);
    }
}

impl Config {
    pub open spec fn users_unique(&self) -> bool {
        names_unique(self.users@)
    }

    /// Adds the user `name` with the PHC hash `phc`, unless a user of that
    /// name is already there; says whether it was added.
    pub fn add_user(&mut self, name: String, phc: String) -> (r: bool)
        ensures
            r == (lookup_user(old(self).users@, encode_utf8(name@)) is None),
            r ==> final(self).users@ == old(self).users@.push((name, phc)),
            !r ==> final(self).users@ == old(self).users@,
            old(self).users_unique() ==> final(self).users_unique(),
            final(self).whitelist@ == old(self).whitelist@,
            final(self).blacklist@ == old(self).blacklist@,
            final(self).require_auth == old(self).require_auth,
            final(self).bind_addr == old(self).bind_addr,
            final(self).limit == old(self).limit,
    {
        let taken = self.find_user(name.as_str().as_bytes()).is_some();
        if taken {
            false
        } else {
            proof {
                lemma_lookup_none(self.users@, encode_utf8(name@));
            }
            let ghost before = self.users@;
            let ghost key = encode_utf8(name@);
            self.users.push((name, phc));
            proof {
                let n = before.len() as int;
                assert(encode_utf8(self.users@[n].0@) == key);
                if names_unique(before) {
                    assert forall|i: int, j: int|
                        0 <= i < self.users@.len() && 0 <= j < self.users@.len() && i != j implies encode_utf8(
                        #[trigger] self.users@[i].0@,
                    ) != encode_utf8(#[trigger] self.users@[j].0@) by {
                        if i < before.len() {
                            assert(self.users@[i] == before[i]);
                        }
                        if j < before.len() {
                            assert(self.users@[j] == before[j]);
                        }
                    }
                }
            }
            true
        }
    }

    pub open spec fn spec_blacklisted(&self, ip: IpAddress) -> bool {
        any_contains(self.blacklist@, ip)
    }

    pub open spec fn spec_whitelisted(&self, ip: IpAddress) -> bool {
        self.whitelist@.len() == 0 || any_contains(self.whitelist@, ip)
    }

    /// The admission rules in order, the first that matches deciding: the
    /// connection limit, then the blacklist, then the whitelist.
    pub open spec fn spec_admission(&self, active: nat, ip: IpAddress) -> Result<(), DenyReason> {
        if active >= self.limit {
            Err(DenyReason::ConnectionLimit)
        } else if self.spec_blacklisted(ip) {
            Err(DenyReason::Blacklisted)
        } else if !self.spec_whitelisted(ip) {
            Err(DenyReason::NotWhitelisted)
        } else {
            Ok(())
        }
    }

    /// Whether some blacklisted network holds `ip`.
    pub fn is_blacklisted(&self, ip: &IpAddress) -> (r: bool)
        ensures
            r == self.spec_blacklisted(*ip),
    {
        any_network_contains(&self.blacklist, ip)
    }

    /// Whether the whitelist is empty or some network of it holds `ip`.
    pub fn is_whitelisted(&self, ip: &IpAddress) -> (r: bool)
        ensures
            r == self.spec_whitelisted(*ip),
    {
        self.whitelist.len() == 0 || any_network_contains(&self.whitelist, ip)
    }

    /// Decides whether a connection from `ip` may proceed while `active`
    /// connections are being served.
    pub fn admission(&self, active: u32, ip: &IpAddress) -> (r: Result<(), DenyReason>)
        ensures
            r == self.spec_admission(active as nat, *ip),
    {
        if active >= self.limit {
            Err(DenyReason::ConnectionLimit)
        } else if self.is_blacklisted(ip) {
            Err(DenyReason::Blacklisted)
        } else if !self.is_whitelisted(ip) {
            Err(DenyReason::NotWhitelisted)
        } else {
            Ok(())
        }
    }

    /// Whether the user table is empty.
    pub fn has_users(&self) -> (r: bool)
        ensures
            r == (self.users@.len() > 0),
    {
        self.users.len() > 0
    }

    /// The PHC hash stored for the user whose name is the bytes `name`.
    pub fn find_user(&self, name: &[u8]) -> (r: Option<&String>)
        ensures
            r is None <==> lookup_user(self.users@, name@) is None,
            r matches Some(h) ==> lookup_user(self.users@, name@) == Some(*h),
    {
        let mut i: usize = 0;
        assert(self.users@.skip(0) =~= self.users@);
        while i < self.users.len()
            invariant
                i <= self.users@.len(),
                lookup_user(self.users@, name@) == lookup_user(self.users@.skip(i as int), name@),
            decreases self.users@.len() - i,
        {
            let entry = &self.users[i];
            assert(self.users@.skip(i as int).drop_first() =~= self.users@.skip(i + 1));
            if bytes_equal(entry.0.as_str().as_bytes(), name) {
                return Some(&entry.1);
            }
            i = i + 1;
        }
        None
    }
}

impl Default for Config {
    /// No users, no lists, authentication required, listening on
    /// 127.0.0.1:1080, at most 255 connections.
    fn default() -> (r: Config)
        ensures
            r.users@.len() == 0,
            r.users_unique(),
            r.whitelist@.len() == 0,
            r.blacklist@.len() == 0,
            r.require_auth,
            r.bind_addr.ip.octets() == seq![127u8, 0u8, 0u8, 1u8],
            r.bind_addr.ip is V4,
            r.bind_addr.port == DEFAULT_PORT,
            r.limit == DEFAULT_LIMIT,
    {
        let ip = IpAddress::V4([127u8, 0u8, 0u8, 1u8]);
        assert(ip.octets() =~= seq![127u8, 0u8, 0u8, 1u8]);
        Config {
            users: Vec::new(),
            whitelist: Vec::new(),
            blacklist: Vec::new(),
            require_auth: true,
            bind_addr: SocketAddress { ip, port: DEFAULT_PORT },
            limit: DEFAULT_LIMIT,
        }
    }
}

fn any_network_contains(nets: &Vec<IpNetwork>, ip: &IpAddress) -> (r: bool)
    ensures
        r == any_contains(nets@, *ip),
{
    let mut i: usize = 0;
    while i < nets.len()
        invariant
            i <= nets@.len(),
            forall|j: int| 0 <= j < i ==> !network_contains(#[trigger] nets@[j]@, *ip),
        decreases nets@.len() - i,
    {
        if nets[i].contains(ip) {
            return true;
        }
        i = i + 1;
    }
    false
}

/// Whether two byte strings are equal.
pub(crate) fn bytes_equal(a: &[u8], b: &[u8]) -> (r: bool)
    ensures
        r == (a@ == b@),
{
    if a.len() != b.len() {
        return false;
    }
    let mut i: usize = 0;
    while i < a.len()
        invariant
            i <= a@.len(),
            a@.len() == b@.len(),
            forall|j: int| 0 <= j < i ==> a@[j] == b@[j],
        decreases a@.len() - i,
    {
        if a[i] != b[i] {
            return false;
        }
        i = i + 1;
    }
    assert(a@ =~= b@);
    true
}

} // verus!
