//! Reading the text that `ip link show` prints.
//!
//! Each interface takes a header line such as
//! `14: veth551a254e@if3: <BROADCAST,UP> mtu 1450 qdisc noqueue master cni0 state UP`
//! followed by a detail line such as
//! `    link/ether 12:56:7d:9f:80:15 brd ff:ff:ff:ff:ff:ff link-netnsid 1`.
//! Other lines (alternative names and the like) are passed over.
use vstd::prelude::*;
use crate::error::{DataExtractionError, IntfMatchError, IpLinkError};
use crate::text::{
    is_blank, lines, piece_spans, parse_u32, span_is, span_starts_with, span_to_u32, spans_are, value_after,
    word_spans, words, find_value_after,
};

verus! {

/// One interface of the listing, as printed.
#[derive(Debug, PartialEq, Eq)]
pub struct IpLinkEntry {
    pub index: u32,
    pub name: String,
    /// The index after `@if` in the name, for one end of a veth pair.
    pub peer_index: Option<u32>,
    pub mtu: u32,
    /// The bridge or bond the interface is enslaved to.
    pub master: Option<String>,
    /// The hardware address of an Ethernet link.
    pub mac_address: Option<String>,
    /// The namespace handle of the peer, as numbered by the listing namespace.
    pub link_netnsid: Option<u32>,
}

pub struct IpLinkEntryView {
    pub index: u32,
    pub name: Seq<char>,
    pub peer_index: Option<u32>,
    pub mtu: u32,
    pub master: Option<Seq<char>>,
    pub mac_address: Option<Seq<char>>,
    pub link_netnsid: Option<u32>,
}

/// A veth interface found in the listing.
#[derive(Debug, PartialEq, Eq)]
pub struct Intf {
    pub name: String,
    pub bridge: Option<String>,
    pub mtu: u32,
    pub mac_address: String,
}

pub struct IntfView {
    pub name: Seq<char>,
    pub bridge: Option<Seq<char>>,
    pub mtu: u32,
    pub mac_address: Seq<char>,
}

pub open spec fn opt_view(o: Option<String>) -> Option<Seq<char>> {
    match o {
        Some(s) => Some(s@),
        None => None,
    }
}

impl View for IpLinkEntry {
    type V = IpLinkEntryView;

    open spec fn view(&self) -> IpLinkEntryView {
        IpLinkEntryView {
            index: self.index,
            name: self.name@,
            peer_index: self.peer_index,
            mtu: self.mtu,
            master: opt_view(self.master),
            mac_address: opt_view(self.mac_address),
            link_netnsid: self.link_netnsid,
        }
    }
}

impl View for Intf {
    type V = IntfView;

    open spec fn view(&self) -> IntfView {
        IntfView {
            name: self.name@,
            bridge: opt_view(self.bridge),
            mtu: self.mtu,
            mac_address: self.mac_address@,
        }
    }
}

pub open spec fn entries_view(v: Seq<IpLinkEntry>) -> Seq<IpLinkEntryView> {
    v.map_values(|e: IpLinkEntry| e@)
}

pub open spec fn intfs_view(v: Seq<Intf>) -> Seq<IntfView> {
    v.map_values(|e: Intf| e@)
}

pub open spec fn key_mtu() -> Seq<char> {
    seq!['m', 't', 'u']
}

pub open spec fn key_master() -> Seq<char> {
    seq!['m', 'a', 's', 't', 'e', 'r']
}

pub open spec fn key_netnsid() -> Seq<char> {
    seq!['l', 'i', 'n', 'k', '-', 'n', 'e', 't', 'n', 's', 'i', 'd']
}

pub open spec fn link_prefix() -> Seq<char> {
    seq!['l', 'i', 'n', 'k', '/']
}

pub open spec fn link_ether() -> Seq<char> {
    seq!['l', 'i', 'n', 'k', '/', 'e', 't', 'h', 'e', 'r']
}

/// The index of a header line: its first word is a number followed by `:`.
pub open spec fn header_index(ws: Seq<Seq<char>>) -> Option<u32> {
    if ws.len() > 0 && ws[0].len() >= 2 && ws[0].last() == ':' {
        parse_u32(ws[0].drop_last())
    } else {
        None
    }
}

/// Position of the first `c` in `t`, or its length.
pub open spec fn index_of_char(t: Seq<char>, c: char) -> nat
    decreases t.len(),
{
    if t.len() == 0 || t[0] == c {
        0
    } else {
        1 + index_of_char(t.drop_first(), c)
    }
}

/// The peer index in the part after `@`: `if` and a number.
pub open spec fn peer_of(r: Seq<char>) -> Option<u32> {
    if r.len() > 2 && r[0] == 'i' && r[1] == 'f' {
        parse_u32(r.skip(2))
    } else {
        None
    }
}

/// The name and peer index in a word such as `veth0@if3:`.
pub open spec fn name_and_peer(t: Seq<char>) -> Option<(Seq<char>, Option<u32>)> {
    if t.len() < 2 || t.last() != ':' {
        None
    } else {
        let body = t.drop_last();
        let at = index_of_char(body, '@');
        if at == 0 {
            None
        } else if at < body.len() {
            Some((body.take(at as int), peer_of(body.skip(at + 1int))))
        } else {
            Some((body, None))
        }
    }
}

/// The interface described by a header line and its detail line, when both are well formed.
pub open spec fn parse_entry(h: Seq<Seq<char>>, d: Seq<Seq<char>>) -> Option<IpLinkEntryView> {
    let netnsid = value_after(d, key_netnsid());
    if header_index(h) is None || h.len() < 2 || name_and_peer(h[1]) is None {
        None
    } else if value_after(h, key_mtu()) is None || parse_u32(value_after(h, key_mtu())->0) is None {
        None
    } else if d.len() == 0 || d[0].len() < 5 || d[0].take(5) != link_prefix() {
        None
    } else if netnsid is Some && parse_u32(netnsid->0) is None {
        None
    } else {
        let np = name_and_peer(h[1])->0;
        Some(
            IpLinkEntryView {
                index: header_index(h)->0,
                name: np.0,
                peer_index: np.1,
                mtu: parse_u32(value_after(h, key_mtu())->0)->0,
                master: value_after(h, key_master()),
                mac_address: if d.len() >= 2 && d[0] == link_ether() {
                    Some(d[1])
                } else {
                    None
                },
                link_netnsid: if netnsid is Some {
                    parse_u32(netnsid->0)
                } else {
                    None
                },
            },
        )
    }
}

/// A line that starts in the first column: a header, or else a line that does
/// not belong to the listing.
pub open spec fn unindented(l: Seq<char>) -> bool {
    l.len() > 0 && !is_blank(l[0])
}

/// The interfaces of a listing given as its lines, or `None` when a line in
/// the first column has no index, or a header line has no well-formed detail
/// line after it. Indented lines other than detail lines are passed over.
pub open spec fn parse_entries(ls: Seq<Seq<char>>) -> Option<Seq<IpLinkEntryView>>
    decreases ls.len(),
{
    if ls.len() == 0 {
        Some(seq![])
    } else if header_index(words(ls[0])) is None {
        if unindented(ls[0]) {
            None
        } else {
            parse_entries(ls.drop_first())
        }
    } else if ls.len() < 2 || header_index(words(ls[1])) is Some || parse_entry(
        words(ls[0]),
        words(ls[1]),
    ) is None {
        None
    } else {
        match parse_entries(ls.skip(2)) {
            Some(rest) => Some(seq![parse_entry(words(ls[0]), words(ls[1]))->0] + rest),
            None => None,
        }
    }
}

/// The veth interfaces whose peer lives in namespace `id`, in listing order, or
/// `None` when one of them has no hardware address.
pub open spec fn select_intfs(es: Seq<IpLinkEntryView>, id: u32) -> Option<Seq<IntfView>>
    decreases es.len(),
{
    if es.len() == 0 {
        Some(seq![])
    } else {
        let e = es[0];
        let rest = select_intfs(es.drop_first(), id);
        if e.link_netnsid != Some(id) {
            rest
        } else if e.mac_address is None || rest is None {
            None
        } else {
            Some(
                seq![IntfView {
                    name: e.name,
                    bridge: e.master,
                    mtu: e.mtu,
                    mac_address: e.mac_address->0,
                }] + rest->0,
            )
        }
    }
}

/// The entries whose peer lives in namespace `id`, in listing order.
pub open spec fn matching_entries(es: Seq<IpLinkEntryView>, id: u32) -> Seq<IpLinkEntryView>
    decreases es.len(),
{
    if es.len() == 0 {
        seq![]
    } else if es[0].link_netnsid == Some(id) {
        seq![es[0]] + matching_entries(es.drop_first(), id)
    } else {
        matching_entries(es.drop_first(), id)
    }
}

/// Every entry whose peer lives in namespace `id` is among the matching entries.
pub proof fn lemma_matching_complete(es: Seq<IpLinkEntryView>, id: u32, i: int)
    requires
        0 <= i < es.len(),
        es[i].link_netnsid == Some(id),
    ensures
        matching_entries(es, id).contains(es[i]),
    decreases es.len(),
{
    if i == 0 {
        assert(matching_entries(es, id)[0] == es[0]);
    } else {
        lemma_matching_complete(es.drop_first(), id, i - 1);
        assert(es.drop_first()[i - 1] == es[i]);
        let m = matching_entries(es.drop_first(), id);
        let k = choose|k: int| 0 <= k < m.len() && m[k] == es[i];
        if es[0].link_netnsid == Some(id) {
            assert(matching_entries(es, id)[k + 1] == es[i]);
        }
    }
}

/// The interfaces read from a listing for namespace `id` are exactly the
/// entries whose peer lives there, in listing order, and nothing else.
pub proof fn lemma_select_keeps_matching_in_order(es: Seq<IpLinkEntryView>, id: u32)
    requires
        select_intfs(es, id) is Some,
    ensures
        select_intfs(es, id)->0.len() == matching_entries(es, id).len(),
        forall|k: int|
            0 <= k < matching_entries(es, id).len() ==> {
                let e = #[trigger] matching_entries(es, id)[k];
                let v = select_intfs(es, id)->0[k];
                &&& e.link_netnsid == Some(id)
                &&& e.mac_address == Some(v.mac_address)
                &&& v.name == e.name
                &&& v.bridge == e.master
                &&& v.mtu == e.mtu
            },
    decreases es.len(),
{
    if es.len() > 0 {
        lemma_select_keeps_matching_in_order(es.drop_first(), id);
        let rest = matching_entries(es.drop_first(), id);
        let vr = select_intfs(es.drop_first(), id)->0;
        if es[0].link_netnsid == Some(id) {
            assert forall|k: int| 0 < k < matching_entries(es, id).len() implies matching_entries(es, id)[k] == rest[k - 1]
                && select_intfs(es, id)->0[k] == vr[k - 1] by {}
        }
    }
}

/// A listing in which no entry's peer lives in namespace `id` gives no interface.
pub proof fn lemma_no_matching_entry(es: Seq<IpLinkEntryView>, id: u32)
    requires
        forall|i: int| 0 <= i < es.len() ==> (#[trigger] es[i]).link_netnsid != Some(id),
    ensures
        select_intfs(es, id) == Some(Seq::<IntfView>::empty()),
    decreases es.len(),
{
    if es.len() > 0 {
        assert forall|i: int| 0 <= i < es.drop_first().len() implies (#[trigger] es.drop_first()[i]).link_netnsid != Some(id) by {
            assert(es.drop_first()[i] == es[i + 1]);
        }
        lemma_no_matching_entry(es.drop_first(), id);
    }
}

fn key_vec_mtu() -> (r: Vec<char>)
    ensures
        r@ == key_mtu(),
{
    vec!['m', 't', 'u']
}

fn key_vec_master() -> (r: Vec<char>)
    ensures
        r@ == key_master(),
{
    vec!['m', 'a', 's', 't', 'e', 'r']
}

fn key_vec_netnsid() -> (r: Vec<char>)
    ensures
        r@ == key_netnsid(),
{
    vec!['l', 'i', 'n', 'k', '-', 'n', 'e', 't', 'n', 's', 'i', 'd']
}

fn link_prefix_vec() -> (r: Vec<char>)
    ensures
        r@ == link_prefix(),
{
    vec!['l', 'i', 'n', 'k', '/']
}

fn link_ether_vec() -> (r: Vec<char>)
    ensures
        r@ == link_ether(),
{
    vec!['l', 'i', 'n', 'k', '/', 'e', 't', 'h', 'e', 'r']
}

/// The characters of `s`.
pub fn collect_chars(s: &str) -> (r: Vec<char>)
    ensures
        r@ == s@,
{
    let mut r: Vec<char> = Vec::new();
    for c in it: s.chars()
        invariant
            r@ == it.seq().take(it.index() as int),
            it.seq() == s@,
    {
        r.push(c);
    }
    r
}

/// The text of `s[lo..hi]`, counted in characters.
fn span_string(s: &str, lo: usize, hi: usize) -> (r: String)
    requires
        lo <= hi <= s@.len(),
    ensures
        r@ == s@.subrange(lo as int, hi as int),
{
    s.substring_char(lo, hi).to_owned()
}

fn read_header_index(cs: &Vec<char>, hw: &Vec<(usize, usize)>, Ghost(h): Ghost<Seq<Seq<char>>>) -> (r:
    Option<u32>)
    requires
        spans_are(cs@, hw@, h),
    ensures
        r == header_index(h),
{
    if hw.len() == 0 {
        return None;
    }
    let (a, b) = hw[0];
    assert(h[0] == cs@.subrange(a as int, b as int));
    if b - a < 2 || cs[b - 1] != ':' {
        return None;
    }
    assert(h[0].drop_last() =~= cs@.subrange(a as int, b - 1));
    span_to_u32(cs, a, b - 1)
}

/// Name and peer index of the word `cs[a..b]`.
fn read_name_and_peer(cs: &Vec<char>, a: usize, b: usize) -> (r: Option<((usize, usize), Option<u32>)>)
    requires
        a <= b <= cs.len(),
    ensures
        match r {
            Some((sp, peer)) => {
                &&& a <= sp.0 <= sp.1 <= b
                &&& name_and_peer(cs@.subrange(a as int, b as int)) == Some(
                    (cs@.subrange(sp.0 as int, sp.1 as int), peer),
                )
            },
            None => name_and_peer(cs@.subrange(a as int, b as int)) is None,
        },
{
    let ghost t = cs@.subrange(a as int, b as int);
    if b - a < 2 || cs[b - 1] != ':' {
        return None;
    }
    let e = b - 1;
    let ghost body = t.drop_last();
    assert(body =~= cs@.subrange(a as int, e as int));
    let mut p: usize = a;
    while p < e && cs[p] != '@'
        invariant
            a <= p <= e < b <= cs.len(),
            body == cs@.subrange(a as int, e as int),
            index_of_char(body, '@') == (p - a) + index_of_char(cs@.subrange(p as int, e as int), '@'),
        decreases e - p,
    {
        assert(cs@.subrange(p as int, e as int).drop_first() =~= cs@.subrange(p + 1, e as int));
        p = p + 1;
    }
    assert(index_of_char(body, '@') == p - a) by {
        if p < e {
            assert(cs@.subrange(p as int, e as int)[0] == '@');
        }
    }
    if p == a {
        return None;
    }
    if p == e {
        return Some(((a, e), None));
    }
    assert(body.take(p - a) =~= cs@.subrange(a as int, p as int));
    let ghost r = body.skip(p - a + 1);
    assert(r =~= cs@.subrange(p + 1, e as int));
    let peer = if e - (p + 1) > 2 && cs[p + 1] == 'i' && cs[p + 2] == 'f' {
        assert(r.skip(2) =~= cs@.subrange(p + 3, e as int));
        span_to_u32(cs, p + 3, e)
    } else {
        None
    };
    Some(((a, p), peer))
}

/// Reads the interface of a header line and its detail line.
fn read_entry(
    s: &str,
    cs: &Vec<char>,
    hw: &Vec<(usize, usize)>,
    dw: &Vec<(usize, usize)>,
    Ghost(h): Ghost<Seq<Seq<char>>>,
    Ghost(d): Ghost<Seq<Seq<char>>>,
) -> (r: Option<IpLinkEntry>)
    requires
        cs@ == s@,
        spans_are(cs@, hw@, h),
        spans_are(cs@, dw@, d),
    ensures
        match r {
            Some(e) => parse_entry(h, d) == Some(e@),
            None => parse_entry(h, d) is None,
        },
{
    let index = match read_header_index(cs, hw, Ghost(h)) {
        Some(i) => i,
        None => return None,
    };
    if hw.len() < 2 {
        return None;
    }
    let (na, nb) = hw[1];
    let (name_span, peer_index) = match read_name_and_peer(cs, na, nb) {
        Some(np) => np,
        None => return None,
    };
    let mtu = match find_value_after(cs, hw, &key_vec_mtu(), Ghost(h)) {
        Some(k) => {
            let (a, b) = hw[k];
            match span_to_u32(cs, a, b) {
                Some(m) => m,
                None => return None,
            }
        },
        None => return None,
    };
    if dw.len() == 0 {
        return None;
    }
    let (la, lb) = dw[0];
    assert(d[0] == cs@.subrange(la as int, lb as int));
    if lb - la >= 5 {
        assert(d[0].take(5) =~= cs@.subrange(la as int, la + 5));
    }
    if !span_starts_with(cs, la, lb, &link_prefix_vec()) {
        assert(d[0].len() < 5 || d[0].take(5) != link_prefix());
        return None;
    }
    assert(d[0].take(5) =~= cs@.subrange(la as int, la + 5));
    let link_netnsid = match find_value_after(cs, dw, &key_vec_netnsid(), Ghost(d)) {
        Some(k) => {
            let (a, b) = dw[k];
            match span_to_u32(cs, a, b) {
                Some(n) => Some(n),
                None => return None,
            }
        },
        None => None,
    };
    let master = match find_value_after(cs, hw, &key_vec_master(), Ghost(h)) {
        Some(k) => {
            let (a, b) = hw[k];
            Some(span_string(s, a, b))
        },
        None => None,
    };
    let mac_address = if dw.len() >= 2 && span_is(cs, la, lb, &link_ether_vec()) {
        let (a, b) = dw[1];
        Some(span_string(s, a, b))
    } else {
        None
    };
    let name = span_string(s, name_span.0, name_span.1);
    let e = IpLinkEntry { index, name, peer_index, mtu, master, mac_address, link_netnsid };
    assert(opt_view(e.master) == value_after(h, key_master()));
    Some(e)
}

/// Reads every interface of an `ip link show` listing, in order.
pub fn parse_ip_link_entries(s: &str) -> (r: Result<Vec<IpLinkEntry>, DataExtractionError>)
    ensures
        match r {
            Ok(v) => parse_entries(lines(s@)) == Some(entries_view(v@)),
            Err(_) => parse_entries(lines(s@)) is None,
        },
{
    let cs = collect_chars(s);
    let ls = piece_spans(&cs, '\n');
    let ghost lw = lines(s@);
    let mut out: Vec<IpLinkEntry> = Vec::new();
    let mut i: usize = 0;
    assert(lw.skip(0) =~= lw);
    assert(entries_view(out@) + parse_entries(lw)->0 =~= parse_entries(lw)->0);
    while i < ls.len()
        invariant
            cs@ == s@,
            spans_are(cs@, ls@, lines(s@)),
            lw == lines(s@),
            i <= ls.len(),
            parse_entries(lw) == match parse_entries(lw.skip(i as int)) {
                Some(rest) => Some(entries_view(out@) + rest),
                None => None,
            },
        decreases ls.len() - i,
    {
        let ghost rest = lw.skip(i as int);
        let (a, b) = ls[i];
        let hw = word_spans(&cs, a, b);
        assert(rest[0] == cs@.subrange(a as int, b as int));
        if read_header_index(&cs, &hw, Ghost(words(rest[0]))).is_none() {
            if a < b && !(cs[a] == ' ' || cs[a] == '\t' || cs[a] == '\r') {
                assert(unindented(rest[0]));
                return Err(DataExtractionError::OutputParsingError(span_string(s, a, b)));
            }
            assert(rest.drop_first() =~= lw.skip(i + 1));
            i = i + 1;
        } else {
            if i + 1 >= ls.len() {
                return Err(DataExtractionError::OutputParsingError(span_string(s, a, b)));
            }
            let (c, d) = ls[i + 1];
            let dw = word_spans(&cs, c, d);
            assert(rest[1] == cs@.subrange(c as int, d as int));
            if read_header_index(&cs, &dw, Ghost(words(rest[1]))).is_some() {
                return Err(DataExtractionError::OutputParsingError(span_string(s, a, b)));
            }
            match read_entry(s, &cs, &hw, &dw, Ghost(words(rest[0])), Ghost(words(rest[1]))) {
                None => {
                    return Err(DataExtractionError::OutputParsingError(span_string(s, a, b)));
                },
                Some(e) => {
                    proof {
                        assert(rest.skip(2) =~= lw.skip(i + 2));
                        assert(entries_view(out@.push(e)) =~= entries_view(out@).push(e@));
                        match parse_entries(lw.skip(i + 2)) {
                            Some(tail) => {
                                assert(entries_view(out@) + (seq![e@] + tail) =~= entries_view(
                                    out@.push(e),
                                ) + tail);
                            },
                            None => {},
                        }
                    }
                    out.push(e);
                    i = i + 2;
                },
            }
        }
    }
    assert(lw.skip(i as int) =~= seq![]);
    assert(entries_view(out@) + seq![] =~= entries_view(out@));
    Ok(out)
}

/// The veth interfaces of an `ip link show` listing whose peer lives in the
/// namespace numbered `netnsid`, in listing order.
pub fn parse_ip_link_printout(s: &str, netnsid: u32) -> (r: Result<Vec<Intf>, IpLinkError>)
    ensures
        match parse_entries(lines(s@)) {
            None => r matches Err(IpLinkError::Parse(_)),
            Some(es) => match select_intfs(es, netnsid) {
                None => r matches Err(IpLinkError::Parse(_)),
                Some(v) => if v.len() == 0 {
                    r == Err::<Vec<Intf>, IpLinkError>(IpLinkError::NoMatch(IntfMatchError(netnsid)))
                } else {
                    r matches Ok(out) && intfs_view(out@) == v
                },
            },
        },
{
    let entries = match parse_ip_link_entries(s) {
        Ok(v) => v,
        Err(e) => return Err(IpLinkError::Parse(e)),
    };
    let ghost es = entries_view(entries@);
    let mut out: Vec<Intf> = Vec::new();
    let ghost mut k: int = 0;
    assert(es.skip(0) =~= es);
    assert(intfs_view(out@) + select_intfs(es, netnsid)->0 =~= select_intfs(es, netnsid)->0);
    for e in it: entries.into_iter()
        invariant
            it.seq() == entries@,
            es == entries_view(entries@),
            parse_entries(lines(s@)) == Some(es),
            k == it.index(),
            k <= es.len(),
            select_intfs(es, netnsid) == match select_intfs(es.skip(k), netnsid) {
                Some(rest) => Some(intfs_view(out@) + rest),
                None => None,
            },
    {
        let ghost rest = es.skip(k);
        assert(k < es.len());
        assert(rest[0] == e@);
        assert(rest.drop_first() =~= es.skip(k + 1));
        let matching = match e.link_netnsid {
            Some(n) => n == netnsid,
            None => false,
        };
        if matching {
            match e.mac_address {
                None => {
                    assert(select_intfs(rest, netnsid) is None);
                    return Err(
                        IpLinkError::Parse(DataExtractionError::OutputParsingError(e.name)),
                    );
                },
                Some(mac) => {
                    let intf = Intf { name: e.name, bridge: e.master, mtu: e.mtu, mac_address: mac };
                    proof {
                        assert(intfs_view(out@.push(intf)) =~= intfs_view(out@).push(intf@));
                        match select_intfs(es.skip(k + 1), netnsid) {
                            Some(tail) => {
                                assert(intfs_view(out@) + (seq![intf@] + tail) =~= intfs_view(
                                    out@.push(intf),
                                ) + tail);
                            },
                            None => {},
                        }
                    }
                    out.push(intf);
                },
            }
        }
        proof {
            k = k + 1;
        }
    }
    assert(es.skip(k) =~= seq![]);
    assert(intfs_view(out@) + seq![] =~= intfs_view(out@));
    if out.len() == 0 {
        return Err(IpLinkError::NoMatch(IntfMatchError(netnsid)));
    }
    Ok(out)
}

} // verus!
