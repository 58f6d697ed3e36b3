//! Pairing container-side interfaces with their host-side peers.
use vstd::prelude::*;
use crate::error::{CorrelationError, IntfMissingErr};
use crate::model::{EthernetDevice, IntfKind, InterfacePair, InterfaceRecord};

verus! {

/// The pairs found, in the order of the container-side records, and the
/// container-side records that are not veth ends.
#[derive(Debug, PartialEq, Eq)]
pub struct Correlation {
    pub pairs: Vec<InterfacePair>,
    pub unmatched: Vec<InterfaceRecord>,
}

/// The peer index of a container-side veth end.
pub open spec fn veth_peer(c: InterfaceRecord) -> Option<u32> {
    if c.kind is Veth {
        c.peer_index
    } else {
        None
    }
}

/// Whether host-side record `h` may be the peer `peer`: its index is `peer`,
/// and when the namespace handle is known, `h` points at that namespace.
pub open spec fn is_candidate(h: InterfaceRecord, peer: u32, netnsid: Option<i32>) -> bool {
    h.index == peer && (netnsid is None || h.link_netnsid == netnsid)
}

pub open spec fn count_candidates(hs: Seq<InterfaceRecord>, peer: u32, netnsid: Option<i32>) -> nat
    decreases hs.len(),
{
    if hs.len() == 0 {
        0
    } else {
        (if is_candidate(hs[0], peer, netnsid) {
            1nat
        } else {
            0nat
        }) + count_candidates(hs.drop_first(), peer, netnsid)
    }
}

/// Position of the first candidate in `hs` (or its length).
pub open spec fn first_candidate(hs: Seq<InterfaceRecord>, peer: u32, netnsid: Option<i32>) -> nat
    decreases hs.len(),
{
    if hs.len() == 0 || is_candidate(hs[0], peer, netnsid) {
        0
    } else {
        1 + first_candidate(hs.drop_first(), peer, netnsid)
    }
}

/// Pairs each container-side veth end, in order, with the one remaining
/// host-side candidate, which is then taken out of the host-side records.
pub open spec fn correlation_of(
    cs: Seq<InterfaceRecord>,
    hs: Seq<InterfaceRecord>,
    netnsid: Option<i32>,
) -> Result<(Seq<InterfacePair>, Seq<InterfaceRecord>), CorrelationError>
    decreases cs.len(),
{
    if cs.len() == 0 {
        Ok((seq![], seq![]))
    } else {
        let c = cs[0];
        match veth_peer(c) {
            None => if c.kind is Veth {
                Err(CorrelationError::VethWithoutPeer(c.index))
            } else {
                match correlation_of(cs.drop_first(), hs, netnsid) {
                    Ok(r) => Ok((r.0, seq![c] + r.1)),
                    Err(e) => Err(e),
                }
            },
            Some(p) => {
                let n = count_candidates(hs, p, netnsid);
                if n == 0 {
                    Err(CorrelationError::PeerInterfaceNotFound(IntfMissingErr(p)))
                } else if n > 1 {
                    Err(CorrelationError::AmbiguousPeerMatch(p))
                } else {
                    let j = first_candidate(hs, p, netnsid) as int;
                    match correlation_of(cs.drop_first(), hs.remove(j), netnsid) {
                        Ok(r) => Ok((seq![InterfacePair { container: c, host: hs[j] }] + r.0, r.1)),
                        Err(e) => Err(e),
                    }
                }
            },
        }
    }
}

pub proof fn lemma_first_candidate(hs: Seq<InterfaceRecord>, peer: u32, netnsid: Option<i32>)
    requires
        count_candidates(hs, peer, netnsid) > 0,
    ensures
        first_candidate(hs, peer, netnsid) < hs.len(),
        is_candidate(hs[first_candidate(hs, peer, netnsid) as int], peer, netnsid),
    decreases hs.len(),
{
    if !is_candidate(hs[0], peer, netnsid) {
        lemma_first_candidate(hs.drop_first(), peer, netnsid);
    }
}

pub proof fn lemma_count_after_remove(hs: Seq<InterfaceRecord>, j: int, peer: u32, netnsid: Option<i32>)
    requires
        0 <= j < hs.len(),
    ensures
        count_candidates(hs, peer, netnsid) == count_candidates(hs.remove(j), peer, netnsid) + (
        if is_candidate(hs[j], peer, netnsid) {
            1nat
        } else {
            0nat
        }),
    decreases j,
{
    if j == 0 {
        assert(hs.remove(0) =~= hs.drop_first());
    } else {
        lemma_count_after_remove(hs.drop_first(), j - 1, peer, netnsid);
        assert(hs.remove(j).drop_first() =~= hs.drop_first().remove(j - 1));
        assert(hs.remove(j)[0] == hs[0]);
    }
}

/// Correlating a container-side veth end with its peer, when the host side holds
/// exactly one candidate for it, gives that one pair; when the container side holds
/// nothing else, it is the only pair, and as the veth end's own index differs from
/// its peer index, the two ends of the pair have different indices.
pub proof fn lemma_single_veth_pair(c: InterfaceRecord, hs: Seq<InterfaceRecord>, netnsid: Option<i32>)
    requires
        c.kind is Veth,
        c.peer_index is Some,
        c.peer_index != Some(c.index),
        count_candidates(hs, c.peer_index->0, netnsid) == 1,
    ensures
        correlation_of(seq![c], hs, netnsid) matches Ok(v) && {
            &&& v.0.len() == 1
            &&& v.1.len() == 0
            &&& v.0[0].container == c
            &&& v.0[0].host.index == c.peer_index->0
            &&& v.0[0].container.index != v.0[0].host.index
        },
{
    let p = c.peer_index->0;
    lemma_first_candidate(hs, p, netnsid);
    let j = first_candidate(hs, p, netnsid) as int;
    assert(seq![c].drop_first() =~= seq![]);
    assert(correlation_of(seq![], hs.remove(j), netnsid) == Ok::<
        (Seq<InterfacePair>, Seq<InterfaceRecord>),
        CorrelationError,
    >((seq![], seq![])));
    assert(seq![InterfacePair { container: c, host: hs[j] }] + seq![] =~= seq![
        InterfacePair { container: c, host: hs[j] },
    ]);
}

/// A container-side veth end whose peer index matches no host-side record makes
/// the whole correlation fail: no pair is ever made without a host side.
pub proof fn lemma_missing_peer_fails(
    cs: Seq<InterfaceRecord>,
    hs: Seq<InterfaceRecord>,
    netnsid: Option<i32>,
    i: int,
)
    requires
        0 <= i < cs.len(),
        veth_peer(cs[i]) is Some,
        count_candidates(hs, veth_peer(cs[i])->0, netnsid) == 0,
    ensures
        correlation_of(cs, hs, netnsid) is Err,
    decreases cs.len(),
{
    if i > 0 {
        let c = cs[0];
        assert(cs.drop_first()[i - 1] == cs[i]);
        match veth_peer(c) {
            None => {
                if !(c.kind is Veth) {
                    lemma_missing_peer_fails(cs.drop_first(), hs, netnsid, i - 1);
                }
            },
            Some(p) => {
                if count_candidates(hs, p, netnsid) == 1 {
                    let j = first_candidate(hs, p, netnsid) as int;
                    lemma_first_candidate(hs, p, netnsid);
                    lemma_count_after_remove(hs, j, veth_peer(cs[i])->0, netnsid);
                    lemma_missing_peer_fails(cs.drop_first(), hs.remove(j), netnsid, i - 1);
                }
            },
        }
    }
}

/// The first container-side veth end whose peer index matches no host-side record
/// gives `PeerInterfaceNotFound` with that index.
pub proof fn lemma_missing_peer_error(
    cs: Seq<InterfaceRecord>,
    hs: Seq<InterfaceRecord>,
    netnsid: Option<i32>,
    i: int,
)
    requires
        0 <= i < cs.len(),
        forall|k: int| 0 <= k < i ==> !((#[trigger] cs[k]).kind is Veth),
        veth_peer(cs[i]) is Some,
        count_candidates(hs, veth_peer(cs[i])->0, netnsid) == 0,
    ensures
        correlation_of(cs, hs, netnsid) == Err::<(Seq<InterfacePair>, Seq<InterfaceRecord>), CorrelationError>(
            CorrelationError::PeerInterfaceNotFound(IntfMissingErr(veth_peer(cs[i])->0)),
        ),
    decreases cs.len(),
{
    if i > 0 {
        assert(!(cs[0].kind is Veth));
        assert(cs.drop_first()[i - 1] == cs[i]);
        assert forall|k: int| 0 <= k < i - 1 implies !((#[trigger] cs.drop_first()[k]).kind is Veth) by {
            assert(cs.drop_first()[k] == cs[k + 1]);
        }
        lemma_missing_peer_error(cs.drop_first(), hs, netnsid, i - 1);
    }
}

/// The first container-side veth end whose peer index matches two or more
/// host-side records gives `AmbiguousPeerMatch` with that index.
pub proof fn lemma_ambiguous_peer_error(
    cs: Seq<InterfaceRecord>,
    hs: Seq<InterfaceRecord>,
    netnsid: Option<i32>,
    i: int,
)
    requires
        0 <= i < cs.len(),
        forall|k: int| 0 <= k < i ==> !((#[trigger] cs[k]).kind is Veth),
        veth_peer(cs[i]) is Some,
        count_candidates(hs, veth_peer(cs[i])->0, netnsid) >= 2,
    ensures
        correlation_of(cs, hs, netnsid) == Err::<(Seq<InterfacePair>, Seq<InterfaceRecord>), CorrelationError>(
            CorrelationError::AmbiguousPeerMatch(veth_peer(cs[i])->0),
        ),
    decreases cs.len(),
{
    if i > 0 {
        assert(!(cs[0].kind is Veth));
        assert(cs.drop_first()[i - 1] == cs[i]);
        assert forall|k: int| 0 <= k < i - 1 implies !((#[trigger] cs.drop_first()[k]).kind is Veth) by {
            assert(cs.drop_first()[k] == cs[k + 1]);
        }
        lemma_ambiguous_peer_error(cs.drop_first(), hs, netnsid, i - 1);
    }
}

/// The pairs of a correlation that succeeds.
pub open spec fn correlated_pairs(
    cs: Seq<InterfaceRecord>,
    hs: Seq<InterfaceRecord>,
    netnsid: Option<i32>,
) -> Seq<InterfacePair> {
    match correlation_of(cs, hs, netnsid) {
        Ok(v) => v.0,
        Err(_) => seq![],
    }
}

/// Every pair that correlation makes joins a container-side veth end to a
/// host-side record whose index is that end's peer index; the container side
/// is a record of `cs` and the host side a record of `hs`.
pub proof fn lemma_pairs_are_peers(cs: Seq<InterfaceRecord>, hs: Seq<InterfaceRecord>, netnsid: Option<i32>)
    requires
        correlation_of(cs, hs, netnsid) is Ok,
    ensures
        forall|k: int|
            0 <= k < correlated_pairs(cs, hs, netnsid).len() ==> {
                let p = #[trigger] correlated_pairs(cs, hs, netnsid)[k];
                &&& p.container.kind is Veth
                &&& p.container.peer_index == Some(p.host.index)
                &&& cs.contains(p.container)
                &&& hs.contains(p.host)
            },
    decreases cs.len(),
{
    if cs.len() > 0 {
        let c = cs[0];
        let rest = cs.drop_first();
        match veth_peer(c) {
            None => {
                if !(c.kind is Veth) {
                    lemma_pairs_are_peers(rest, hs, netnsid);
                    let ps = correlated_pairs(cs, hs, netnsid);
                    assert forall|k: int| 0 <= k < ps.len() implies cs.contains(
                        (#[trigger] ps[k]).container,
                    ) && hs.contains(ps[k].host) by {
                        let q = correlated_pairs(rest, hs, netnsid)[k];
                        let a = choose|a: int| 0 <= a < rest.len() && rest[a] == q.container;
                        assert(cs[a + 1] == q.container);
                    }
                }
            },
            Some(p) => {
                let j = first_candidate(hs, p, netnsid) as int;
                lemma_first_candidate(hs, p, netnsid);
                let hs2 = hs.remove(j);
                lemma_pairs_are_peers(rest, hs2, netnsid);
                let ps = correlated_pairs(cs, hs, netnsid);
                let qs = correlated_pairs(rest, hs2, netnsid);
                assert(ps[0].container == c && ps[0].host == hs[j]);
                assert(cs[0] == c);
                assert forall|k: int| 0 <= k < ps.len() implies cs.contains(
                    (#[trigger] ps[k]).container,
                ) && hs.contains(ps[k].host) && ps[k].container.kind is Veth
                    && ps[k].container.peer_index == Some(ps[k].host.index) by {
                    if k > 0 {
                        let q = qs[k - 1];
                        assert(ps[k] == q);
                        let a = choose|a: int| 0 <= a < rest.len() && rest[a] == q.container;
                        assert(cs[a + 1] == q.container);
                        let b = choose|b: int| 0 <= b < hs2.len() && hs2[b] == q.host;
                        if b < j {
                            assert(hs[b] == q.host);
                        } else {
                            assert(hs[b + 1] == q.host);
                        }
                    }
                }
            },
        }
    }
}

/// Counts the candidates for `peer` in `hs`, with the position of the first.
fn find_candidates(hs: &Vec<InterfaceRecord>, peer: u32, netnsid: Option<i32>) -> (r: (usize, usize))
    ensures
        r.0 == count_candidates(hs@, peer, netnsid),
        r.0 > 0 ==> r.1 == first_candidate(hs@, peer, netnsid),
{
    let mut count: usize = 0;
    let mut first: usize = 0;
    let mut i: usize = 0;
    assert(hs@.skip(0) =~= hs@);
    while i < hs.len()
        invariant
            i <= hs.len(),
            count <= i,
            count_candidates(hs@, peer, netnsid) == count + count_candidates(
                hs@.skip(i as int),
                peer,
                netnsid,
            ),
            count == 0 ==> first_candidate(hs@, peer, netnsid) == i + first_candidate(
                hs@.skip(i as int),
                peer,
                netnsid,
            ),
            count > 0 ==> first == first_candidate(hs@, peer, netnsid),
        decreases hs.len() - i,
    {
        let h = &hs[i];
        assert(hs@.skip(i as int).drop_first() =~= hs@.skip(i + 1));
        assert(hs@.skip(i as int)[0] == hs@[i as int]);
        let hit = h.index == peer && match netnsid {
            None => true,
            Some(n) => match h.link_netnsid {
                Some(m) => m == n,
                None => false,
            },
        };
        if hit {
            if count == 0 {
                first = i;
            }
            count = count + 1;
        }
        i = i + 1;
    }
    assert(hs@.skip(i as int) =~= seq![]);
    (count, first)
}

/// Pairs the container-side veth ends with their host-side peers.
///
/// Each container-side veth end, in order, must have a peer index and exactly
/// one candidate among the host-side records not yet paired: a record whose
/// index is its peer index and, when `peer_netnsid` is given, whose link-netnsid
/// is that handle. Records of other kinds are handed back unmatched.
pub fn correlate(
    container_links: Vec<InterfaceRecord>,
    host_links: Vec<InterfaceRecord>,
    peer_netnsid: Option<i32>,
) -> (r: Result<Correlation, CorrelationError>)
    ensures
        match correlation_of(container_links@, host_links@, peer_netnsid) {
            Ok(v) => r matches Ok(out) && out.pairs@ == v.0 && out.unmatched@ == v.1,
            Err(e) => r == Err::<Correlation, CorrelationError>(e),
        },
{
    let ghost cs = container_links@;
    let ghost h0 = host_links@;
    let mut hosts = host_links;
    let mut pairs: Vec<InterfacePair> = Vec::new();
    let mut unmatched: Vec<InterfaceRecord> = Vec::new();
    let ghost mut k: int = 0;
    assert(cs.skip(0) =~= cs);
    proof {
        match correlation_of(cs, h0, peer_netnsid) {
            Ok(v) => {
                assert(pairs@ + v.0 =~= v.0);
                assert(unmatched@ + v.1 =~= v.1);
            },
            Err(_) => {},
        }
    }
    for c in it: container_links.into_iter()
        invariant
            it.seq() == cs,
            cs == container_links@,
            h0 == host_links@,
            k == it.index(),
            k <= cs.len(),
            correlation_of(cs, h0, peer_netnsid) == match correlation_of(
                cs.skip(k),
                hosts@,
                peer_netnsid,
            ) {
                Ok(v) => Ok((pairs@ + v.0, unmatched@ + v.1)),
                Err(e) => Err(e),
            },
    {
        let ghost rest = cs.skip(k);
        let ghost hs = hosts@;
        assert(k < cs.len());
        assert(rest[0] == c);
        assert(rest.drop_first() =~= cs.skip(k + 1));
        let is_veth = match c.kind {
            IntfKind::Veth => true,
            _ => false,
        };
        let peer = if is_veth {
            c.peer_index
        } else {
            None
        };
        match peer {
            None => {
                if is_veth {
                    assert(correlation_of(rest, hs, peer_netnsid) == Err::<
                        (Seq<InterfacePair>, Seq<InterfaceRecord>),
                        CorrelationError,
                    >(CorrelationError::VethWithoutPeer(c.index)));
                    return Err(CorrelationError::VethWithoutPeer(c.index));
                }
                proof {
                    match correlation_of(cs.skip(k + 1), hs, peer_netnsid) {
                        Ok(v) => {
                            assert(unmatched@ + (seq![c] + v.1) =~= unmatched@.push(c) + v.1);
                        },
                        Err(_) => {},
                    }
                }
                unmatched.push(c);
            },
            Some(p) => {
                let (n, j) = find_candidates(&hosts, p, peer_netnsid);
                assert(veth_peer(rest[0]) == Some(p));
                if n == 0 {
                    assert(correlation_of(rest, hs, peer_netnsid) == Err::<
                        (Seq<InterfacePair>, Seq<InterfaceRecord>),
                        CorrelationError,
                    >(CorrelationError::PeerInterfaceNotFound(IntfMissingErr(p))));
                    return Err(CorrelationError::PeerInterfaceNotFound(IntfMissingErr(p)));
                }
                if n > 1 {
                    assert(correlation_of(rest, hs, peer_netnsid) == Err::<
                        (Seq<InterfacePair>, Seq<InterfaceRecord>),
                        CorrelationError,
                    >(CorrelationError::AmbiguousPeerMatch(p)));
                    return Err(CorrelationError::AmbiguousPeerMatch(p));
                }
                proof {
                    lemma_first_candidate(hs, p, peer_netnsid);
                }
                let h = hosts.remove(j);
                let pair = InterfacePair { container: c, host: h };
                proof {
                    match correlation_of(cs.skip(k + 1), hosts@, peer_netnsid) {
                        Ok(v) => {
                            assert(pairs@ + (seq![pair] + v.0) =~= pairs@.push(pair) + v.0);
                        },
                        Err(_) => {},
                    }
                }
                pairs.push(pair);
            },
        }
        proof {
            k = k + 1;
        }
    }
    assert(cs.skip(k) =~= seq![]);
    assert(pairs@ + seq![] =~= pairs@);
    assert(unmatched@ + seq![] =~= unmatched@);
    Ok(Correlation { pairs, unmatched })
}

/// An interface that is not a veth end, with the PCI device behind it, if any.
#[derive(Debug, PartialEq, Eq)]
pub struct DeviceIntf {
    pub record: InterfaceRecord,
    pub device: Option<EthernetDevice>,
}

/// Position of the first device whose interface index is `index`, or the length.
pub open spec fn device_position(ds: Seq<EthernetDevice>, index: u32) -> nat
    decreases ds.len(),
{
    if ds.len() == 0 || ds[0].index as int == index as int {
        0
    } else {
        1 + device_position(ds.drop_first(), index)
    }
}

/// Gives each record, in order, the first remaining device with its index; a
/// device goes to one record at most.
pub open spec fn with_devices(rs: Seq<InterfaceRecord>, ds: Seq<EthernetDevice>) -> Seq<DeviceIntf>
    decreases rs.len(),
{
    if rs.len() == 0 {
        seq![]
    } else {
        let j = device_position(ds, rs[0].index) as int;
        if j < ds.len() {
            seq![DeviceIntf { record: rs[0], device: Some(ds[j]) }] + with_devices(
                rs.drop_first(),
                ds.remove(j),
            )
        } else {
            seq![DeviceIntf { record: rs[0], device: None }] + with_devices(rs.drop_first(), ds)
        }
    }
}

fn find_device(ds: &Vec<EthernetDevice>, index: u32) -> (r: usize)
    ensures
        r == device_position(ds@, index),
{
    let mut i: usize = 0;
    assert(ds@.skip(0) =~= ds@);
    while i < ds.len()
        invariant
            i <= ds.len(),
            device_position(ds@, index) == i + device_position(ds@.skip(i as int), index),
        decreases ds.len() - i,
    {
        assert(ds@.skip(i as int)[0] == ds@[i as int]);
        if ds[i].index >= 0 && ds[i].index as u32 == index {
            return i;
        }
        assert(ds@.skip(i as int).drop_first() =~= ds@.skip(i + 1));
        i = i + 1;
    }
    i
}

/// Annotates interfaces with the PCI devices behind them, matched by index.
pub fn annotate_devices(records: Vec<InterfaceRecord>, devices: Vec<EthernetDevice>) -> (r: Vec<
    DeviceIntf,
>)
    ensures
        r@ == with_devices(records@, devices@),
{
    let ghost rs = records@;
    let mut ds = devices;
    let mut out: Vec<DeviceIntf> = Vec::new();
    let ghost mut k: int = 0;
    assert(rs.skip(0) =~= rs);
    assert(out@ + with_devices(rs, ds@) =~= with_devices(rs, ds@));
    for rec in it: records.into_iter()
        invariant
            it.seq() == rs,
            k == it.index(),
            k <= rs.len(),
            with_devices(rs, devices@) == out@ + with_devices(rs.skip(k), ds@),
    {
        let ghost rest = rs.skip(k);
        assert(k < rs.len());
        assert(rest[0] == rec);
        assert(rest.drop_first() =~= rs.skip(k + 1));
        let j = find_device(&ds, rec.index);
        let item = if j < ds.len() {
            let d = ds.remove(j);
            DeviceIntf { record: rec, device: Some(d) }
        } else {
            DeviceIntf { record: rec, device: None }
        };
        assert(out@ + (seq![item] + with_devices(rs.skip(k + 1), ds@)) =~= out@.push(item)
            + with_devices(rs.skip(k + 1), ds@));
        out.push(item);
        proof {
            k = k + 1;
        }
    }
    assert(rs.skip(k) =~= seq![]);
    assert(out@ + seq![] =~= out@);
    out
}

} // verus!
