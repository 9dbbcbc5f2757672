//! The path selector: which relays a message travels through.

use vstd::prelude::*;
use vstd::string::*;
use crate::crypto::terminal_hop;
use crate::directory::{clone_entries, entries_view, NodeData, NodeDataView, NodeList};
use crate::encoding::{b64_to_rsa_pub_key, text_key};
use crate::error::Error;
use crate::ipv4::{parse_ipv4, parsed_ipv4};
use crate::keys::{PublicKey, PublicKeyView};
use crate::onion::{path_view, HopView};

verus! {

/// How many relays a message passes before its destination.
pub const PATH_INTERMEDIATES: usize = 3;

/// The views of a sequence of addresses, in order.
pub open spec fn addresses_view(addrs: Seq<[u8; 4]>) -> Seq<Seq<u8>> {
    Seq::new(addrs.len(), |i: int| addrs[i]@)
}

/// An entry can relay for the node whose own key text is `own_key`: it
/// carries another key, and its host reads as an address.
pub open spec fn usable(entry: NodeDataView, own_key: Seq<char>) -> bool {
    entry.pub_key != own_key && parsed_ipv4(entry.host) is Some
}

/// How many entries of `list` can relay for the node with `own_key`.
pub open spec fn usable_count(list: Seq<NodeDataView>, own_key: Seq<char>) -> nat
    decreases list.len(),
{
    if list.len() == 0 {
        0
    } else {
        usable_count(list.drop_last(), own_key) + if usable(list.last(), own_key) {
            1nat
        } else {
            0nat
        }
    }
}

/// `picks` names different usable entries of `list`, and `path` holds their
/// addresses in the same order.
pub open spec fn is_selection(
    list: Seq<NodeDataView>,
    own_key: Seq<char>,
    picks: Seq<int>,
    path: Seq<Seq<u8>>,
) -> bool {
    &&& picks.len() == path.len()
    &&& forall|i: int|
        0 <= i < picks.len() ==> {
            &&& 0 <= #[trigger] picks[i] < list.len()
            &&& usable(list[picks[i]], own_key)
            &&& parsed_ipv4(list[picks[i]].host) == Some(path[i])
        }
    &&& forall|i: int, j: int| 0 <= i < j < picks.len() ==> picks[i] != picks[j]
}

/// `path` holds the addresses of different usable entries of `list`.
pub open spec fn selected_from(list: Seq<NodeDataView>, own_key: Seq<char>, path: Seq<Seq<u8>>) -> bool {
    exists|picks: Seq<int>| is_selection(list, own_key, picks, path)
}

/// No two entries of `list` read as the same address.
pub open spec fn distinct_addresses(list: Seq<NodeDataView>) -> bool {
    forall|i: int, j: int|
        0 <= i < j < list.len() && parsed_ipv4(list[i].host) is Some ==> parsed_ipv4(
            list[i].host,
        ) != parsed_ipv4(list[j].host)
}

/// Some entry of `list` has the address `addr` and carries another key than
/// `own_key`.
pub open spec fn held_by_other(list: Seq<NodeDataView>, own_key: Seq<char>, addr: Seq<u8>) -> bool {
    exists|at: int|
        0 <= at < list.len() && parsed_ipv4(#[trigger] list[at].host) == Some(addr)
            && list[at].pub_key != own_key
}

/// A selected path never holds an address twice, provided no two entries
/// of the list share an address, and every address on it belongs to an
/// entry that carries another key than the node's own.
pub proof fn lemma_path_disjoint(list: Seq<NodeDataView>, own_key: Seq<char>, path: Seq<Seq<u8>>)
    requires
        selected_from(list, own_key, path),
        distinct_addresses(list),
    ensures
        forall|i: int, j: int| 0 <= i < j < path.len() ==> path[i] != path[j],
        forall|i: int| 0 <= i < path.len() ==> held_by_other(list, own_key, #[trigger] path[i]),
{
    let picks = choose|picks: Seq<int>| is_selection(list, own_key, picks, path);
    assert forall|i: int, j: int| 0 <= i < j < path.len() implies path[i] != path[j] by {
        let a = picks[i];
        let b = picks[j];
        assert(a != b);
        if a < b {
            assert(parsed_ipv4(list[a].host) != parsed_ipv4(list[b].host));
        } else {
            assert(parsed_ipv4(list[b].host) != parsed_ipv4(list[a].host));
        }
    }
    assert forall|i: int| 0 <= i < path.len() implies held_by_other(
        list,
        own_key,
        #[trigger] path[i],
    ) by {
        let at = picks[i];
        assert(0 <= at < list.len() && parsed_ipv4(list[at].host) == Some(path[i])
            && list[at].pub_key != own_key);
    }
}

/// Replacing one entry changes the count by what leaves and what comes.
proof fn lemma_count_update(list: Seq<NodeDataView>, own_key: Seq<char>, at: int, by: NodeDataView)
    requires
        0 <= at < list.len(),
    ensures
        usable_count(list.update(at, by), own_key) + (if usable(list[at], own_key) {
            1nat
        } else {
            0nat
        }) == usable_count(list, own_key) + (if usable(by, own_key) {
            1nat
        } else {
            0nat
        }),
    decreases list.len(),
{
    if at == list.len() - 1 {
        assert(list.update(at, by).drop_last() =~= list.drop_last());
    } else {
        lemma_count_update(list.drop_last(), own_key, at, by);
        assert(list.update(at, by).drop_last() =~= list.drop_last().update(at, by));
    }
}

/// Moving the last entry into the place of another and dropping the end
/// lowers the count by one exactly when the entry that left was usable.
proof fn lemma_count_swap_remove(list: Seq<NodeDataView>, own_key: Seq<char>, at: int)
    requires
        0 <= at < list.len(),
    ensures
        usable_count(list.update(at, list.last()).drop_last(), own_key) + (if usable(
            list[at],
            own_key,
        ) {
            1nat
        } else {
            0nat
        }) == usable_count(list, own_key),
{
    lemma_count_update(list, own_key, at, list.last());
}

/// A number from the thread's generator (`rand::random::<usize>`). Nothing is
/// claimed of it.
#[verifier::external_body]
fn random_number() -> (r: usize) {
    rand::random::<usize>()
}

/// Takes the entry at `r` modulo the pool's size out of the pool, moving
/// the last entry into its place.
pub fn draw(pool: &mut Vec<NodeData>, r: usize) -> (node: NodeData)
    requires
        old(pool)@.len() > 0,
    ensures
        node == old(pool)@[r as int % old(pool)@.len() as int],
        final(pool)@ == old(pool)@.update(
            r as int % old(pool)@.len() as int,
            old(pool)@.last(),
        ).drop_last(),
{
    let at = r % pool.len();
    pool.swap_remove(at)
}

/// Picks `k` relays at random from the snapshot.
///
/// Entries are drawn from a copy of the list, each at most once; an entry
/// that carries the node's own key, or whose host does not read as an
/// address, is passed over. The choice succeeds exactly when the snapshot
/// holds at least `k` usable entries, and fails with `InsufficientNodes`
/// otherwise. What comes back holds the addresses of `k` different usable
/// entries.
pub fn choose_path(snapshot: &NodeList, k: usize, self_pub_key: &str) -> (r: Result<
    Vec<[u8; 4]>,
    Error,
>)
    ensures
        r is Ok <==> k <= usable_count(snapshot@.list, self_pub_key@),
        r matches Ok(path) ==> path@.len() == k && selected_from(
            snapshot@.list,
            self_pub_key@,
            addresses_view(path@),
        ),
        r matches Err(e) ==> e == Error::InsufficientNodes,
{
    let own_key = self_pub_key.to_owned();
    let mut pool = clone_entries(&snapshot.list);
    let mut out: Vec<[u8; 4]> = Vec::new();
    let ghost list = snapshot@.list;
    let ghost own = self_pub_key@;
    let ghost mut origin: Seq<int> = Seq::new(list.len(), |i: int| i);
    let ghost mut picks: Seq<int> = Seq::empty();
    proof {
        assert(addresses_view(out@) =~= Seq::<Seq<u8>>::empty());
    }
    while out.len() < k
        invariant
            list == snapshot@.list,
            own == self_pub_key@,
            own_key@ == own,
            out@.len() <= k,
            origin.len() == pool@.len() <= list.len(),
            forall|j: int|
                0 <= j < origin.len() ==> 0 <= #[trigger] origin[j] < list.len() && pool@[j]@
                    == list[origin[j]],
            forall|i: int, j: int| 0 <= i < j < origin.len() ==> origin[i] != origin[j],
            forall|i: int, j: int|
                0 <= i < picks.len() && 0 <= j < origin.len() ==> picks[i] != origin[j],
            is_selection(list, own, picks, addresses_view(out@)),
            usable_count(entries_view(pool@), own) + out@.len() == usable_count(list, own),
        decreases pool@.len(),
    {
        if pool.len() == 0 {
            proof {
                assert(entries_view(pool@) =~= Seq::<NodeDataView>::empty());
            }
            return Err(Error::InsufficientNodes);
        }
        let r = random_number();
        let ghost at = r as int % pool@.len() as int;
        let ghost before = pool@;
        let ghost from = origin[at];
        let node = draw(&mut pool, r);
        proof {
            lemma_count_swap_remove(entries_view(before), own, at);
            assert(entries_view(pool@) =~= entries_view(before).update(
                at,
                entries_view(before).last(),
            ).drop_last());
            origin = origin.update(at, origin.last()).drop_last();
            assert(node@ == list[from]);
        }
        let ghost old_out = addresses_view(out@);
        let mut accepted = false;
        if !(node.pub_key == own_key) {
            match parse_ipv4(node.host.as_str()) {
                Some(addr) => {
                    out.push(addr);
                    accepted = true;
                },
                None => {},
            }
        }
        proof {
            if accepted {
                let ghost old_picks = picks;
                picks = picks.push(from);
                assert(addresses_view(out@) =~= old_out.push(out@.last()@));
                assert forall|i: int| 0 <= i < picks.len() implies {
                    &&& 0 <= #[trigger] picks[i] < list.len()
                    &&& usable(list[picks[i]], own)
                    &&& parsed_ipv4(list[picks[i]].host) == Some(addresses_view(out@)[i])
                } by {
                    if i < old_picks.len() {
                        assert(picks[i] == old_picks[i]);
                        assert(addresses_view(out@)[i] == old_out[i]);
                    }
                }
            } else {
                assert(addresses_view(out@) =~= old_out);
                assert(!usable(node@, own));
            }
        }
    }
    Ok(out)
}

/// The key that the directory gives for the address `dest`.
///
/// The entries are read in order up to the first whose host is `dest`. An
/// entry on the way whose host does not read as an address is a bad entry;
/// so is the matching entry if its key text stands for no key. Where no
/// entry matches, the node is unknown.
pub open spec fn lookup(list: Seq<NodeDataView>, dest: Seq<u8>) -> Result<PublicKeyView, Error>
    decreases list.len(),
{
    if list.len() == 0 {
        Err(Error::UnknownNode)
    } else {
        match parsed_ipv4(list[0].host) {
            None => Err(Error::BadDirectoryEntry),
            Some(addr) => if addr == dest {
                match text_key(list[0].pub_key) {
                    Some(key) => Ok(key),
                    None => Err(Error::BadDirectoryEntry),
                }
            } else {
                lookup(list.drop_first(), dest)
            },
        }
    }
}

/// A lookup fails only for want of an entry or over a bad entry.
pub proof fn lemma_lookup_errors(list: Seq<NodeDataView>, dest: Seq<u8>)
    ensures
        lookup(list, dest) matches Err(e) ==> e == Error::UnknownNode || e
            == Error::BadDirectoryEntry,
    decreases list.len(),
{
    if list.len() > 0 {
        lemma_lookup_errors(list.drop_first(), dest);
    }
}

/// The view of a result that holds a key.
pub open spec fn key_result_view(r: Result<PublicKey, Error>) -> Result<PublicKeyView, Error> {
    match r {
        Ok(key) => Ok(key@),
        Err(e) => Err(e),
    }
}

/// Whether two addresses are the same.
fn same_address(a: &[u8; 4], b: &[u8; 4]) -> (same: bool)
    ensures
        same == (a@ == b@),
{
    let same = a[0] == b[0] && a[1] == b[1] && a[2] == b[2] && a[3] == b[3];
    proof {
        if same {
            assert(a@ =~= b@);
        }
    }
    same
}

/// Looks up the public key of the node at `destination`.
pub fn get_pub_key(snapshot: &NodeList, destination: &[u8; 4]) -> (r: Result<PublicKey, Error>)
    ensures
        key_result_view(r) == lookup(snapshot@.list, destination@),
{
    let ghost list = snapshot@.list;
    let mut i: usize = 0;
    proof {
        assert(list.skip(0) =~= list);
    }
    while i < snapshot.list.len()
        invariant
            i <= snapshot.list@.len(),
            list == snapshot@.list,
            lookup(list, destination@) == lookup(list.skip(i as int), destination@),
        decreases snapshot.list@.len() - i,
    {
        let entry = &snapshot.list[i];
        proof {
            assert(list.skip(i as int)[0] == entry@);
            assert(list.skip(i as int).drop_first() =~= list.skip(i + 1));
        }
        match parse_ipv4(entry.host.as_str()) {
            None => {
                return Err(Error::BadDirectoryEntry);
            },
            Some(addr) => {
                if same_address(&addr, destination) {
                    return match b64_to_rsa_pub_key(entry.pub_key.as_str()) {
                        Some(key) => Ok(key),
                        None => Err(Error::BadDirectoryEntry),
                    };
                }
            },
        }
        i += 1;
    }
    Err(Error::UnknownNode)
}

/// The address that the relay at position `i` of `path` forwards to: the
/// next address on the path, or the terminal address at the end.
pub open spec fn next_hop_at(path: Seq<Seq<u8>>, i: int) -> Seq<u8> {
    if i + 1 < path.len() {
        path[i + 1]
    } else {
        terminal_hop()
    }
}

/// `pairs` gives, for each position of `path`, where the relay there
/// forwards to and the key that the directory has for it.
pub open spec fn pairs_for(list: Seq<NodeDataView>, path: Seq<Seq<u8>>, pairs: Seq<HopView>) -> bool {
    &&& pairs.len() == path.len()
    &&& forall|i: int|
        0 <= i < path.len() ==> (#[trigger] pairs[i]).0 == next_hop_at(path, i) && lookup(
            list,
            path[i],
        ) == Ok::<PublicKeyView, Error>(pairs[i].1)
}

/// The first `upto` addresses of `path` all have a key in the directory.
pub open spec fn all_known(list: Seq<NodeDataView>, path: Seq<Seq<u8>>, upto: int) -> bool {
    forall|i: int| 0 <= i < upto ==> (#[trigger] lookup(list, path[i])) is Ok
}

/// The directory fails the path with `e`: the first address on it that has
/// no key fails its lookup with `e`.
pub open spec fn lookup_fails(list: Seq<NodeDataView>, path: Seq<Seq<u8>>, e: Error) -> bool {
    exists|at: int|
        0 <= at < path.len() && all_known(list, path, at) && #[trigger] lookup(list, path[at])
            == Err::<PublicKeyView, Error>(e)
}

/// Pairs each address on the path with where its relay forwards to and
/// with its key from the directory.
///
/// Fails with the error of the first address, in path order, that the
/// directory has no key for.
pub fn make_dest_key_pairs(snapshot: &NodeList, path: &Vec<[u8; 4]>) -> (r: Result<
    Vec<([u8; 4], PublicKey)>,
    Error,
>)
    ensures
        r matches Ok(pairs) ==> pairs_for(
            snapshot@.list,
            addresses_view(path@),
            path_view(pairs@),
        ),
        r matches Err(e) ==> lookup_fails(snapshot@.list, addresses_view(path@), e),
        r is Ok <==> all_known(snapshot@.list, addresses_view(path@), path@.len() as int),
{
    let ghost list = snapshot@.list;
    let ghost addrs = addresses_view(path@);
    let mut dest_key: Vec<([u8; 4], PublicKey)> = Vec::new();
    let mut i: usize = 0;
    while i < path.len()
        invariant
            i <= path@.len(),
            list == snapshot@.list,
            addrs == addresses_view(path@),
            dest_key@.len() == i,
            forall|j: int|
                0 <= j < i ==> (#[trigger] path_view(dest_key@)[j]).0 == next_hop_at(addrs, j)
                    && lookup(list, addrs[j]) == Ok::<PublicKeyView, Error>(
                    path_view(dest_key@)[j].1,
                ),
        decreases path@.len() - i,
    {
        let next = if i + 1 < path.len() {
            path[i + 1]
        } else {
            [0u8, 0u8, 0u8, 0u8]
        };
        proof {
            assert(next@ =~= next_hop_at(addrs, i as int));
        }
        let ghost before = path_view(dest_key@);
        match get_pub_key(snapshot, &path[i]) {
            Ok(key) => {
                dest_key.push((next, key));
                proof {
                    assert(path_view(dest_key@) =~= before.push((next@, key@)));
                }
            },
            Err(e) => {
                proof {
                    assert(all_known(list, addrs, i as int)) by {
                        assert forall|j: int| 0 <= j < i implies (#[trigger] lookup(
                            list,
                            addrs[j],
                        )) is Ok by {
                            assert(path_view(dest_key@)[j].0 == next_hop_at(addrs, j));
                        }
                    }
                    assert(lookup(list, addrs[i as int]) == Err::<PublicKeyView, Error>(e));
                    assert(!all_known(list, addrs, path@.len() as int));
                }
                return Err(e);
            },
        }
        i += 1;
    }
    proof {
        assert forall|j: int| 0 <= j < path@.len() implies (#[trigger] lookup(list, addrs[j]))
            is Ok by {
            assert(path_view(dest_key@)[j].0 == next_hop_at(addrs, j));
        }
    }
    Ok(dest_key)
}

} // verus!
