//! Turning the link messages of a namespace into interface records.
use vstd::prelude::*;
use crate::iplink::{collect_chars, opt_view};
use crate::model::{IPAddress, InterfaceRecord, IntfKind, MacVlanInfo, MacVlanMode};
use crate::text::span_is;

verus! {

/// The link-layer type of Ethernet links.
pub const ARPHRD_ETHER: u16 = 1;

/// One attribute of a link message.
#[derive(Debug, PartialEq, Eq)]
pub enum LinkAttr {
    IfName(String),
    Address(Vec<u8>),
    Mtu(u32),
    OperState(String),
    /// The kind name of the link info: `veth`, `bridge`, `macvlan`, ...
    Kind(String),
    MacVlanMode(MacVlanMode),
    /// Index of the master device.
    Master(u32),
    /// Index of the linked device: the peer of a veth end, the lower device of a macvlan.
    Link(u32),
    /// Namespace handle of the linked device.
    NetNsId(i32),
    /// An attribute this library does not read.
    Other,
}

/// A link message as the kernel sends it, with its attributes in order.
#[derive(Debug, PartialEq, Eq)]
pub struct LinkMessage {
    pub index: u32,
    pub link_layer_type: u16,
    pub attrs: Vec<LinkAttr>,
}

/// What the attributes of a link message say, each field set by the last
/// attribute that carries it.
pub struct LinkFields {
    pub name: Option<String>,
    pub mac_address: Option<Vec<u8>>,
    pub mtu: Option<u32>,
    pub oper_state: Option<String>,
    pub kind: Option<String>,
    pub macvlan_mode: Option<MacVlanMode>,
    pub master: Option<u32>,
    pub link: Option<u32>,
    pub netnsid: Option<i32>,
}

pub open spec fn no_fields() -> LinkFields {
    LinkFields {
        name: None,
        mac_address: None,
        mtu: None,
        oper_state: None,
        kind: None,
        macvlan_mode: None,
        master: None,
        link: None,
        netnsid: None,
    }
}

pub open spec fn apply_attr(f: LinkFields, a: LinkAttr) -> LinkFields {
    match a {
        LinkAttr::IfName(n) => LinkFields { name: Some(n), ..f },
        LinkAttr::Address(m) => LinkFields { mac_address: Some(m), ..f },
        LinkAttr::Mtu(m) => LinkFields { mtu: Some(m), ..f },
        LinkAttr::OperState(s) => LinkFields { oper_state: Some(s), ..f },
        LinkAttr::Kind(k) => LinkFields { kind: Some(k), ..f },
        LinkAttr::MacVlanMode(m) => LinkFields { macvlan_mode: Some(m), ..f },
        LinkAttr::Master(m) => LinkFields { master: Some(m), ..f },
        LinkAttr::Link(l) => LinkFields { link: Some(l), ..f },
        LinkAttr::NetNsId(n) => LinkFields { netnsid: Some(n), ..f },
        LinkAttr::Other => f,
    }
}

/// The fields set by a sequence of attributes, later ones overriding earlier ones.
pub open spec fn fields_of(attrs: Seq<LinkAttr>) -> LinkFields
    decreases attrs.len(),
{
    if attrs.len() == 0 {
        no_fields()
    } else {
        apply_attr(fields_of(attrs.drop_last()), attrs.last())
    }
}

/// The kind of a link from its kind name; a macvlan carries its mode and
/// lower device when the message gives them.
pub open spec fn kind_of(name: Option<String>, mode: Option<MacVlanMode>, link: Option<u32>) -> IntfKind {
    match name {
        None => IntfKind::Phys,
        Some(n) => if n@ == seq!['v', 'e', 't', 'h'] {
            IntfKind::Veth
        } else if n@ == seq!['b', 'r', 'i', 'd', 'g', 'e'] {
            IntfKind::Bridge
        } else if n@ == seq!['i', 'p', 'v', 'l', 'a', 'n'] {
            IntfKind::Ipvlan
        } else if n@ == seq!['m', 'a', 'c', 'v', 'l', 'a', 'n'] {
            IntfKind::Macvlan(MacVlanInfo { mode, master: link })
        } else {
            IntfKind::Other(n)
        },
    }
}

/// Whether a link message gives a record: Ethernet links only.
pub open spec fn is_kept(link_layer_type: u16) -> bool {
    link_layer_type == ARPHRD_ETHER
}

/// The record of a kept link message, with the given addresses.
pub open spec fn record_of(
    index: u32,
    link_layer_type: u16,
    attrs: Seq<LinkAttr>,
    addresses: Vec<IPAddress>,
) -> Option<InterfaceRecord> {
    let f = fields_of(attrs);
    if !is_kept(link_layer_type) {
        None
    } else {
        let kind = kind_of(f.kind, f.macvlan_mode, f.link);
        Some(
            InterfaceRecord {
                index,
                name: f.name,
                oper_state: f.oper_state,
                mtu: f.mtu,
                mac_address: f.mac_address,
                kind,
                master_index: f.master,
                master: None,
                peer_index: if kind is Veth {
                    f.link
                } else {
                    None
                },
                link_netnsid: f.netnsid,
                addresses,
            },
        )
    }
}

fn chars_of_veth() -> (r: Vec<char>)
    ensures
        r@ == seq!['v', 'e', 't', 'h'],
{
    vec!['v', 'e', 't', 'h']
}

fn chars_of_bridge() -> (r: Vec<char>)
    ensures
        r@ == seq!['b', 'r', 'i', 'd', 'g', 'e'],
{
    vec!['b', 'r', 'i', 'd', 'g', 'e']
}

fn chars_of_ipvlan() -> (r: Vec<char>)
    ensures
        r@ == seq!['i', 'p', 'v', 'l', 'a', 'n'],
{
    vec!['i', 'p', 'v', 'l', 'a', 'n']
}

fn chars_of_macvlan() -> (r: Vec<char>)
    ensures
        r@ == seq!['m', 'a', 'c', 'v', 'l', 'a', 'n'],
{
    vec!['m', 'a', 'c', 'v', 'l', 'a', 'n']
}

fn string_is(s: &String, pat: &Vec<char>) -> (r: bool)
    ensures
        r == (s@ == pat@),
{
    let cs = collect_chars(s.as_str());
    let r = span_is(&cs, 0, cs.len(), pat);
    assert(cs@.subrange(0, cs@.len() as int) =~= cs@);
    r
}

fn kind_from(name: Option<String>, mode: Option<MacVlanMode>, link: Option<u32>) -> (r: IntfKind)
    ensures
        r == kind_of(name, mode, link),
{
    match name {
        None => IntfKind::Phys,
        Some(n) => {
            if string_is(&n, &chars_of_veth()) {
                IntfKind::Veth
            } else if string_is(&n, &chars_of_bridge()) {
                IntfKind::Bridge
            } else if string_is(&n, &chars_of_ipvlan()) {
                IntfKind::Ipvlan
            } else if string_is(&n, &chars_of_macvlan()) {
                IntfKind::Macvlan(MacVlanInfo { mode, master: link })
            } else {
                IntfKind::Other(n)
            }
        },
    }
}

/// The interface record of a link message, with no addresses yet, or `None`
/// for a link that is not Ethernet.
pub fn link_record(msg: LinkMessage) -> (r: Option<InterfaceRecord>)
    ensures
        r is Some <==> is_kept(msg.link_layer_type),
        r matches Some(rec) ==> rec.addresses@.len() == 0 && r == record_of(
            msg.index,
            msg.link_layer_type,
            msg.attrs@,
            rec.addresses,
        ),
{
    let LinkMessage { index, link_layer_type, attrs } = msg;
    let ghost all = attrs@;
    let mut f = LinkFields {
        name: None,
        mac_address: None,
        mtu: None,
        oper_state: None,
        kind: None,
        macvlan_mode: None,
        master: None,
        link: None,
        netnsid: None,
    };
    let ghost mut k: int = 0;
    assert(all.take(0) =~= seq![]);
    for a in it: attrs.into_iter()
        invariant
            it.seq() == all,
            k == it.index(),
            k <= all.len(),
            f == fields_of(all.take(k)),
    {
        assert(all.take(k + 1).drop_last() =~= all.take(k));
        assert(all.take(k + 1).last() == a);
        match a {
            LinkAttr::IfName(n) => f.name = Some(n),
            LinkAttr::Address(m) => f.mac_address = Some(m),
            LinkAttr::Mtu(m) => f.mtu = Some(m),
            LinkAttr::OperState(s) => f.oper_state = Some(s),
            LinkAttr::Kind(n) => f.kind = Some(n),
            LinkAttr::MacVlanMode(m) => f.macvlan_mode = Some(m),
            LinkAttr::Master(m) => f.master = Some(m),
            LinkAttr::Link(l) => f.link = Some(l),
            LinkAttr::NetNsId(n) => f.netnsid = Some(n),
            LinkAttr::Other => {},
        }
        proof {
            k = k + 1;
        }
    }
    assert(all.take(k) =~= all);
    if link_layer_type != ARPHRD_ETHER {
        return None;
    }
    let kind = kind_from(f.kind, f.macvlan_mode, f.link);
    let peer_index = match kind {
        IntfKind::Veth => f.link,
        _ => None,
    };
    Some(
        InterfaceRecord {
            index,
            name: f.name,
            oper_state: f.oper_state,
            mtu: f.mtu,
            mac_address: f.mac_address,
            kind,
            master_index: f.master,
            master: None,
            peer_index,
            link_netnsid: f.netnsid,
            addresses: Vec::new(),
        },
    )
}

/// An address assigned to the link with the given index.
#[derive(Debug, PartialEq, Eq)]
pub struct AddressMessage {
    pub index: u32,
    pub address: IPAddress,
}

pub open spec fn indices_of(rs: Seq<InterfaceRecord>) -> Seq<u32> {
    rs.map_values(|r: InterfaceRecord| r.index)
}

/// Position of the first `x` in `s`, or its length.
pub open spec fn position_of(s: Seq<u32>, x: u32) -> nat
    decreases s.len(),
{
    if s.len() == 0 || s[0] == x {
        0
    } else {
        1 + position_of(s.drop_first(), x)
    }
}

/// The addresses, in order, of the messages for link `index`.
pub open spec fn addresses_for(addrs: Seq<AddressMessage>, index: u32) -> Seq<IPAddress>
    decreases addrs.len(),
{
    if addrs.len() == 0 {
        seq![]
    } else {
        let rest = addresses_for(addrs.drop_last(), index);
        if addrs.last().index == index {
            rest.push(addrs.last().address)
        } else {
            rest
        }
    }
}

/// `b` is `a` with other addresses.
pub open spec fn same_but_addresses(a: InterfaceRecord, b: InterfaceRecord) -> bool {
    InterfaceRecord { addresses: b.addresses, ..a } == b
}

/// The addresses that record `i` of `rs` receives: those of its index, when it
/// is the first record with that index.
pub open spec fn received(rs: Seq<InterfaceRecord>, addrs: Seq<AddressMessage>, i: int) -> Seq<IPAddress> {
    if position_of(indices_of(rs), rs[i].index) == i {
        addresses_for(addrs, rs[i].index)
    } else {
        seq![]
    }
}

proof fn lemma_position_of(s: Seq<u32>, x: u32)
    ensures
        position_of(s, x) <= s.len(),
        position_of(s, x) < s.len() ==> s[position_of(s, x) as int] == x,
        forall|i: int| 0 <= i < position_of(s, x) ==> s[i] != x,
    decreases s.len(),
{
    if s.len() > 0 && s[0] != x {
        lemma_position_of(s.drop_first(), x);
        assert forall|i: int| 0 <= i < position_of(s, x) implies s[i] != x by {
            if i > 0 {
                assert(s[i] == s.drop_first()[i - 1]);
            }
        }
    }
}

fn find_index(rs: &Vec<InterfaceRecord>, index: u32) -> (r: usize)
    ensures
        r == position_of(indices_of(rs@), index),
{
    let ghost s = indices_of(rs@);
    proof {
        lemma_position_of(s, index);
    }
    let mut i: usize = 0;
    while i < rs.len()
        invariant
            i <= rs.len(),
            s == indices_of(rs@),
            s.len() == rs.len(),
            i <= position_of(s, index),
            position_of(s, index) <= s.len(),
            position_of(s, index) < s.len() ==> s[position_of(s, index) as int] == index,
            forall|j: int| 0 <= j < position_of(s, index) ==> s[j] != index,
        decreases rs.len() - i,
    {
        if rs[i].index == index {
            assert(s[i as int] == index);
            return i;
        }
        assert(s[i as int] != index);
        i = i + 1;
    }
    i
}

/// Gives each address to the first record with its index, after the addresses
/// the record already has; addresses of no record are dropped.
pub fn attach_addresses(records: Vec<InterfaceRecord>, addrs: Vec<AddressMessage>) -> (r: Vec<
    InterfaceRecord,
>)
    ensures
        r.len() == records.len(),
        forall|i: int|
            0 <= i < r.len() ==> same_but_addresses(records@[i], #[trigger] r@[i])
                && r@[i].addresses@ == records@[i].addresses@ + received(records@, addrs@, i),
{
    let ghost orig = records@;
    let ghost all = addrs@;
    let mut rs = records;
    let ghost mut k: int = 0;
    assert forall|i: int| 0 <= i < rs.len() implies same_but_addresses(orig[i], #[trigger] rs@[i])
        && rs@[i].addresses@ == orig[i].addresses@ + received(orig, all.take(0), i) by {
        assert(all.take(0) =~= seq![]);
        assert(orig[i].addresses@ + seq![] =~= orig[i].addresses@);
    }
    for a in it: addrs.into_iter()
        invariant
            it.seq() == all,
            all == addrs@,
            orig == records@,
            k == it.index(),
            k <= all.len(),
            rs.len() == orig.len(),
            indices_of(rs@) == indices_of(orig),
            forall|i: int|
                0 <= i < rs.len() ==> same_but_addresses(orig[i], #[trigger] rs@[i])
                    && rs@[i].addresses@ == orig[i].addresses@ + received(orig, all.take(k), i),
    {
        assert(all.take(k + 1).drop_last() =~= all.take(k));
        assert(all.take(k + 1).last() == a);
        let ghost before = rs@;
        let j = find_index(&rs, a.index);
        proof {
            lemma_position_of(indices_of(orig), a.index);
        }
        if j < rs.len() {
            let mut rec = rs.remove(j);
            rec.addresses.push(a.address);
            rs.insert(j, rec);
            assert(rs@ =~= before.update(j as int, rec));
        }
        assert(indices_of(rs@) =~= indices_of(orig)) by {
            assert forall|i: int| 0 <= i < rs.len() implies indices_of(rs@)[i] == indices_of(orig)[i] by {
                assert(indices_of(before)[i] == indices_of(orig)[i]);
            }
        }
        assert forall|i: int| 0 <= i < rs.len() implies same_but_addresses(orig[i], #[trigger] rs@[i])
            && rs@[i].addresses@ == orig[i].addresses@ + received(orig, all.take(k + 1), i) by {
            assert(indices_of(orig)[i] == orig[i].index);
            if i == j {
                assert(indices_of(orig)[j as int] == a.index);
            } else if position_of(indices_of(orig), orig[i].index) == i {
                assert(orig[i].index != a.index);
            }
        }
        proof {
            k = k + 1;
        }
    }
    assert(all.take(k) =~= all);
    rs
}

/// `b` is `a` with another master name.
pub open spec fn same_but_master(a: InterfaceRecord, b: InterfaceRecord) -> bool {
    InterfaceRecord { master: b.master, ..a } == b
}

/// The name of the master of record `i`: the name of the first record of the
/// same namespace whose index is its master index.
pub open spec fn master_name(rs: Seq<InterfaceRecord>, i: int) -> Option<Seq<char>> {
    match rs[i].master_index {
        None => None,
        Some(m) => {
            let j = position_of(indices_of(rs), m);
            if j < rs.len() {
                opt_view(rs[j as int].name)
            } else {
                None
            }
        },
    }
}

fn copy_name(o: &Option<String>) -> (r: Option<String>)
    ensures
        opt_view(r) == opt_view(*o),
{
    match o {
        Some(s) => Some(s.clone()),
        None => None,
    }
}

/// Fills in the name of each record's master from the records of the same namespace.
pub fn resolve_master_names(records: Vec<InterfaceRecord>) -> (r: Vec<InterfaceRecord>)
    ensures
        r.len() == records.len(),
        forall|i: int|
            0 <= i < r.len() ==> same_but_master(records@[i], #[trigger] r@[i]) && opt_view(
                r@[i].master,
            ) == master_name(records@, i),
{
    let ghost orig = records@;
    let mut names: Vec<Option<String>> = Vec::new();
    let mut i: usize = 0;
    while i < records.len()
        invariant
            records@ == orig,
            i <= records.len(),
            names.len() == i,
            forall|k: int| 0 <= k < i ==> opt_view(#[trigger] names@[k]) == master_name(orig, k),
        decreases records.len() - i,
    {
        let name = match records[i].master_index {
            None => None,
            Some(m) => {
                let j = find_index(&records, m);
                if j < records.len() {
                    copy_name(&records[j].name)
                } else {
                    None
                }
            },
        };
        names.push(name);
        i = i + 1;
    }
    let ghost all_names = names@;
    let mut out: Vec<InterfaceRecord> = Vec::new();
    let ghost mut k: int = 0;
    for rec in it: records.into_iter()
        invariant
            it.seq() == orig,
            k == it.index(),
            k <= orig.len(),
            all_names.len() == orig.len(),
            names@ == all_names.skip(k),
            out.len() == k,
            forall|q: int| 0 <= q < orig.len() ==> opt_view(#[trigger] all_names[q]) == master_name(orig, q),
            forall|q: int|
                0 <= q < k ==> same_but_master(orig[q], #[trigger] out@[q]) && opt_view(out@[q].master)
                    == master_name(orig, q),
    {
        let mut rec = rec;
        assert(names@[0] == all_names[k]);
        let name = names.remove(0);
        assert(names@ =~= all_names.skip(k + 1));
        rec.master = name;
        out.push(rec);
        proof {
            k = k + 1;
        }
    }
    out
}

} // verus!
