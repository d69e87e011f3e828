//! Coordination state kept by the accepting thread: the registry of
//! users keyed by masked peer address, the round-robin choice of a
//! worker ring for each new connection, and the shutdown-signal rules.

use vstd::prelude::*;

verus! {

broadcast use vstd::seq_lib::lemma_seq_skip_index, vstd::seq_lib::lemma_seq_skip_len;

/// A peer address, already reduced to its numeric form.
#[derive(Debug, Clone, Copy, PartialEq, Eq, Structural)]
pub enum IpAddress {
    V4(u32),
    V6(u128),
}

/// One user: a masked peer address and how many of its connections are
/// open.  Its 1-based position in the registry is the user id that
/// tags pixel ownership; 0 stays reserved for "no owner".
#[derive(Debug, Clone, Copy, PartialEq, Eq, Structural)]
pub struct UserState {
    pub ip: IpAddress,
    pub connections: usize,
}

/// The peer address with the family's mask applied.
pub open spec fn spec_mask_ip(ip: IpAddress, ipv4_mask: u32, ipv6_mask: u128) -> IpAddress {
    match ip {
        IpAddress::V4(a) => IpAddress::V4(a & ipv4_mask),
        IpAddress::V6(a) => IpAddress::V6(a & ipv6_mask),
    }
}

/// Apply the family's mask to a peer address.
pub fn mask_ip(ip: IpAddress, ipv4_mask: u32, ipv6_mask: u128) -> (r: IpAddress)
    ensures
        r == spec_mask_ip(ip, ipv4_mask, ipv6_mask),
{
    match ip {
        IpAddress::V4(a) => IpAddress::V4(a & ipv4_mask),
        IpAddress::V6(a) => IpAddress::V6(a & ipv6_mask),
    }
}

/// The first registry slot holding `ip`, if any.
pub open spec fn spec_find_ip(clients: Seq<UserState>, ip: IpAddress) -> Option<int>
    decreases clients.len(),
{
    if clients.len() == 0 {
        None::<int>
    } else if clients[0].ip == ip {
        Some(0int)
    } else {
        match spec_find_ip(clients.skip(1), ip) {
            Some(i) => Some(i + 1),
            None => None::<int>,
        }
    }
}

/// The first registry slot whose user has no open connection, if any.
pub open spec fn spec_find_free(clients: Seq<UserState>) -> Option<int>
    decreases clients.len(),
{
    if clients.len() == 0 {
        None::<int>
    } else if clients[0].connections == 0 {
        Some(0int)
    } else {
        match spec_find_free(clients.skip(1)) {
            Some(i) => Some(i + 1),
            None => None::<int>,
        }
    }
}

/// What looking up (or creating) the user of a masked address does: an
/// existing entry keeps its slot; otherwise the first vacated slot (no
/// open connections) is taken over; only if none is vacant does the
/// registry grow.  The returned number is the 1-based user id.
pub open spec fn spec_get_or_create(clients: Seq<UserState>, masked: IpAddress) -> (
    int,
    Seq<UserState>,
) {
    match spec_find_ip(clients, masked) {
        Some(i) => (i + 1, clients),
        None => match spec_find_free(clients) {
            Some(j) => (j + 1, clients.update(j, UserState { ip: masked, connections: 0 })),
            None => (
                clients.len() as int + 1,
                clients.push(UserState { ip: masked, connections: 0 }),
            ),
        },
    }
}

/// The slot `spec_find_ip` names holds `ip` and no earlier one does.
proof fn lemma_find_ip_char(clients: Seq<UserState>, ip: IpAddress)
    ensures
        match spec_find_ip(clients, ip) {
            Some(i) => 0 <= i < clients.len() && clients[i].ip == ip && forall|k: int|
                0 <= k < i ==> clients[k].ip != ip,
            None => forall|k: int| 0 <= k < clients.len() ==> clients[k].ip != ip,
        },
    decreases clients.len(),
{
    if clients.len() > 0 && clients[0].ip != ip {
        let rest = clients.skip(1);
        lemma_find_ip_char(rest, ip);
        match spec_find_ip(rest, ip) {
            Some(i) => {
                assert(clients[i + 1] == rest[i]);
                assert forall|k: int| 0 <= k < i + 1 implies clients[k].ip != ip by {
                    if k > 0 {
                        assert(rest[k - 1] == clients[k]);
                    }
                }
            },
            None => {
                assert forall|k: int| 0 <= k < clients.len() implies clients[k].ip != ip by {
                    if k > 0 {
                        assert(rest[k - 1] == clients[k]);
                    }
                }
            },
        }
    }
}

/// The slot `spec_find_free` names is vacant and no earlier one is.
proof fn lemma_find_free_char(clients: Seq<UserState>)
    ensures
        match spec_find_free(clients) {
            Some(i) => 0 <= i < clients.len() && clients[i].connections == 0 && forall|k: int|
                0 <= k < i ==> clients[k].connections != 0,
            None => forall|k: int| 0 <= k < clients.len() ==> clients[k].connections != 0,
        },
    decreases clients.len(),
{
    if clients.len() > 0 && clients[0].connections != 0 {
        let rest = clients.skip(1);
        lemma_find_free_char(rest);
        match spec_find_free(rest) {
            Some(i) => {
                assert(clients[i + 1] == rest[i]);
                assert forall|k: int| 0 <= k < i + 1 implies clients[k].connections != 0 by {
                    if k > 0 {
                        assert(rest[k - 1] == clients[k]);
                    }
                }
            },
            None => {
                assert forall|k: int|
                    0 <= k < clients.len() implies clients[k].connections != 0 by {
                    if k > 0 {
                        assert(rest[k - 1] == clients[k]);
                    }
                }
            },
        }
    }
}

/// Look up the user of `ip` under the masks, creating it if need be,
/// and return its 1-based user id, as [`spec_get_or_create`] describes.
pub fn get_or_create_user_state(
    clients: &mut Vec<UserState>,
    ip: IpAddress,
    ipv4_mask: u32,
    ipv6_mask: u128,
) -> (uid: u32)
    requires
        old(clients)@.len() + 1 <= u32::MAX,
    ensures
        ({
            let masked = spec_mask_ip(ip, ipv4_mask, ipv6_mask);
            &&& uid == spec_get_or_create(old(clients)@, masked).0
            &&& final(clients)@ == spec_get_or_create(old(clients)@, masked).1
            &&& 1 <= uid <= final(clients)@.len()
        }),
{
    let masked = mask_ip(ip, ipv4_mask, ipv6_mask);
    proof {
        lemma_find_ip_char(clients@, masked);
        lemma_find_free_char(clients@);
    }
    let n = clients.len();
    let mut i: usize = 0;
    while i < n
        invariant
            i <= n,
            n == clients@.len(),
            n + 1 <= u32::MAX,
            clients@ == old(clients)@,
            masked == spec_mask_ip(ip, ipv4_mask, ipv6_mask),
            forall|k: int| 0 <= k < i ==> clients@[k].ip != masked,
        decreases n - i,
    {
        if clients[i].ip == masked {
            proof {
                lemma_find_ip_char(clients@, masked);
            }
            return (i + 1) as u32;
        }
        i = i + 1;
    }
    let mut j: usize = 0;
    while j < n
        invariant
            j <= n,
            n == clients@.len(),
            n + 1 <= u32::MAX,
            clients@ == old(clients)@,
            masked == spec_mask_ip(ip, ipv4_mask, ipv6_mask),
            forall|k: int| 0 <= k < n ==> clients@[k].ip != masked,
            forall|k: int| 0 <= k < j ==> clients@[k].connections != 0,
        decreases n - j,
    {
        if clients[j].connections == 0 {
            proof {
                lemma_find_ip_char(clients@, masked);
                lemma_find_free_char(clients@);
            }
            clients.set(j, UserState { ip: masked, connections: 0 });
            return (j + 1) as u32;
        }
        j = j + 1;
    }
    proof {
        lemma_find_ip_char(clients@, masked);
        lemma_find_free_char(clients@);
    }
    clients.push(UserState { ip: masked, connections: 0 });
    clients.len() as u32
}

/// Record one more open connection for `uid`.
pub fn connection_opened(clients: &mut Vec<UserState>, uid: u32)
    requires
        1 <= uid <= old(clients)@.len(),
        old(clients)@[uid - 1].connections < usize::MAX,
    ensures
        final(clients)@ == old(clients)@.update(
            uid - 1,
            UserState {
                ip: old(clients)@[uid - 1].ip,
                connections: (old(clients)@[uid - 1].connections + 1) as usize,
            },
        ),
{
    let i = (uid - 1) as usize;
    let entry = clients[i];
    clients.set(i, UserState { ip: entry.ip, connections: entry.connections + 1 });
}

/// Record that one of `uid`'s connections closed.
pub fn connection_closed(clients: &mut Vec<UserState>, uid: u32)
    requires
        1 <= uid <= old(clients)@.len(),
        old(clients)@[uid - 1].connections >= 1,
    ensures
        final(clients)@ == old(clients)@.update(
            uid - 1,
            UserState {
                ip: old(clients)@[uid - 1].ip,
                connections: (old(clients)@[uid - 1].connections - 1) as usize,
            },
        ),
{
    let i = (uid - 1) as usize;
    let entry = clients[i];
    clients.set(i, UserState { ip: entry.ip, connections: entry.connections - 1 });
}

/// Reuse of vacated user slots.  Once a user's last connection has
/// closed, its slot is vacant: the next connection from a masked
/// address the registry does not hold is given exactly the first
/// vacant slot's id, and the registry does not grow.
pub proof fn lemma_user_slot_reuse(clients: Seq<UserState>, masked: IpAddress, j: int)
    requires
        0 <= j < clients.len(),
        clients[j].connections == 0,
        forall|k: int| 0 <= k < j ==> clients[k].connections != 0,
        forall|k: int| 0 <= k < clients.len() ==> clients[k].ip != masked,
    ensures
        spec_get_or_create(clients, masked).0 == j + 1,
        spec_get_or_create(clients, masked).1.len() == clients.len(),
{
    lemma_find_ip_char(clients, masked);
    lemma_find_free_char(clients);
    match spec_find_ip(clients, masked) {
        Some(i) => {
            assert(false);
        },
        None => {},
    }
    match spec_find_free(clients) {
        Some(i) => {
            assert(clients[i].connections == 0);
            if i < j {
                assert(false);
            }
            if j < i {
                assert(false);
            }
        },
        None => {
            assert(false);
        },
    }
}

/// Round-robin choice of the worker ring for the next connection.
pub fn next_lackey(cycle_idx: &mut usize, n_rings: usize) -> (pick: usize)
    requires
        n_rings >= 1,
    ensures
        pick == *old(cycle_idx) % n_rings,
        pick < n_rings,
        *final(cycle_idx) == if *old(cycle_idx) == usize::MAX {
            0usize
        } else {
            (*old(cycle_idx) + 1) as usize
        },
{
    let pick = *cycle_idx % n_rings;
    *cycle_idx = if *cycle_idx == usize::MAX {
        0
    } else {
        *cycle_idx + 1
    };
    pick
}

/// What the coordinator does with a delivered signal.
#[derive(Debug, Clone, Copy, PartialEq, Eq, Structural)]
pub enum SignalAction {
    /// A second exit signal arrived within the grace window: abort the
    /// process.
    Abort,
    /// First exit signal: fan an exit message out to every ring.
    Fanout,
    /// Not an exit signal: log and carry on.
    Ignore,
}

/// The Linux numbers of the exit-class signals.
pub const SIGINT: u32 = 2;

pub const SIGQUIT: u32 = 3;

pub const SIGTERM: u32 = 15;

/// Whether a signal asks the server to shut down.
pub fn is_exit_signal(signo: u32) -> (r: bool)
    ensures
        r <==> (signo == SIGINT || signo == SIGQUIT || signo == SIGTERM),
{
    signo == SIGINT || signo == SIGQUIT || signo == SIGTERM
}

/// Decide what a delivered signal means: exit-class signals shut the
/// server down gracefully, a second one within ten seconds aborts it,
/// anything else is ignored.
pub fn decide_signal(signo: u32, seconds_since_last_exit_signal: u64) -> (a: SignalAction)
    ensures
        a == (if signo == SIGINT || signo == SIGQUIT || signo == SIGTERM {
            if seconds_since_last_exit_signal < 10 {
                SignalAction::Abort
            } else {
                SignalAction::Fanout
            }
        } else {
            SignalAction::Ignore
        }),
{
    if is_exit_signal(signo) {
        if seconds_since_last_exit_signal < 10 {
            SignalAction::Abort
        } else {
            SignalAction::Fanout
        }
    } else {
        SignalAction::Ignore
    }
}

} // verus!
