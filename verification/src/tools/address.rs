//! The addresses that a service announces when it starts.

use crate::color::{escape, escape_of, paint_one, painted, reset, Tint};
use crate::text::{decimal, push_decimal};
use vstd::prelude::*;
use vstd::relations::{sorted_by, total_ordering};
use vstd::seq_lib::{lemma_sorted_unique, to_multiset_build, to_multiset_insert};
use vstd::string::StringExecFns;

verus! {

/// An address of the fourth version of the internet protocol, by its four
/// parts.
#[derive(Debug, Clone, Copy, PartialEq, Eq)]
pub struct Ipv4 {
    pub a: u8,
    pub b: u8,
    pub c: u8,
    pub d: u8,
}

/// The order of addresses: by the first part, then the second, and so on.
pub open spec fn order() -> spec_fn(Ipv4, Ipv4) -> bool {
    |x: Ipv4, y: Ipv4| x.rank() <= y.rank()
}

impl Ipv4 {
    /// The address as one number, the first part counting most.
    pub open spec fn rank(self) -> int {
        self.a * 0x100_0000 + self.b * 0x1_0000 + self.c * 0x100 + self.d
    }

    /// The address stands for every address of the machine.
    pub open spec fn unspecified(self) -> bool {
        self.a == 0 && self.b == 0 && self.c == 0 && self.d == 0
    }

    /// The address leads back to the machine itself.
    pub open spec fn loopback(self) -> bool {
        self.a == 127
    }

    /// The address in dotted notation.
    pub open spec fn text(self) -> Seq<char> {
        decimal(self.a as nat) + "."@ + decimal(self.b as nat) + "."@ + decimal(self.c as nat)
            + "."@ + decimal(self.d as nat)
    }

    pub fn new(a: u8, b: u8, c: u8, d: u8) -> (ip: Self)
        ensures
            ip == (Ipv4 { a, b, c, d }),
    {
        Ipv4 { a, b, c, d }
    }

    /// Whether the address stands for every address of the machine, so
    /// that the addresses of its interfaces are announced in its place.
    pub fn is_unspecified(&self) -> (yes: bool)
        ensures
            yes == self.unspecified(),
    {
        self.a == 0 && self.b == 0 && self.c == 0 && self.d == 0
    }

    fn number(&self) -> (n: u32)
        ensures
            n == self.rank(),
    {
        (self.a as u32) * 0x100_0000 + (self.b as u32) * 0x1_0000 + (self.c as u32) * 0x100 + (
        self.d as u32)
    }

    /// Appends the address in dotted notation.
    fn push_to(&self, out: &mut String)
        ensures
            final(out)@ == old(out)@ + self.text(),
    {
        push_decimal(out, self.a as u64);
        out.append(".");
        push_decimal(out, self.b as u64);
        out.append(".");
        push_decimal(out, self.c as u64);
        out.append(".");
        push_decimal(out, self.d as u64);
        assert(out@ =~= old(out)@ + self.text());
    }
}

/// The order of addresses is a total one.
pub proof fn lemma_order_is_total()
    ensures
        total_ordering(order()),
{
    assert forall|x: Ipv4, y: Ipv4| #[trigger] order()(x, y) && #[trigger] order()(y, x) implies x
        == y by {
        assert(x.rank() == y.rank());
        assert(x.a == y.a);
        assert(x.b == y.b);
        assert(x.c == y.c);
    }
}

/// The addresses of `list` in ascending order.
pub fn sort(list: &Vec<Ipv4>) -> (sorted: Vec<Ipv4>)
    ensures
        sorted_by(sorted@, order()),
        sorted@.to_multiset() == list@.to_multiset(),
        sorted@ == list@.sort_by(order()),
{
    let mut sorted: Vec<Ipv4> = Vec::new();
    let mut i: usize = 0;
    assert(sorted@ =~= list@.take(0));
    while i < list.len()
        invariant
            i <= list.len(),
            sorted.len() == i,
            sorted_by(sorted@, order()),
            sorted@.to_multiset() == list@.take(i as int).to_multiset(),
        decreases list.len() - i,
    {
        let ip = list[i];
        let key = ip.number();
        let mut at: usize = 0;
        while at < sorted.len() && sorted[at].number() <= key
            invariant
                at <= sorted.len(),
                key == ip.rank(),
                forall|k: int| 0 <= k < at ==> (#[trigger] sorted@[k]).rank() <= key,
            decreases sorted.len() - at,
        {
            at += 1;
        }
        let ghost before = sorted@;
        sorted.insert(at, ip);
        proof {
            to_multiset_insert(before, at as int, ip);
            to_multiset_build(list@.take(i as int), ip);
            assert(list@.take(i + 1) =~= list@.take(i as int).push(ip));
            assert forall|p: int, q: int| 0 <= p < q < sorted@.len() implies #[trigger] order()(
                sorted@[p],
                sorted@[q],
            ) by {
                if q < at {
                    assert(order()(before[p], before[q]));
                } else if q == at {
                    assert(before[p].rank() <= key);
                } else if p < at {
                    assert(order()(before[p], before[q - 1]));
                } else if p == at {
                    assert(order()(before[at as int], before[q - 1]) || q - 1 == at);
                } else {
                    assert(order()(before[p - 1], before[q - 1]));
                }
            }
        }
        i += 1;
    }
    assert(list@.take(list.len() as int) =~= list@);
    proof {
        lemma_order_is_total();
        list@.lemma_sort_by_ensures(order());
        lemma_sorted_unique(sorted@, list@.sort_by(order()), order());
    }
    sorted
}

/// The addresses of a list, where there is one.
pub open spec fn known(interfaces: Option<&Vec<Ipv4>>) -> Option<Seq<Ipv4>> {
    match interfaces {
        Some(list) => Some(list@),
        None => None,
    }
}

/// The addresses to announce for a service that is bound to `addr`, on a
/// machine whose interfaces have the addresses `interfaces` where they are
/// known. A service bound to one address announces that one. A service
/// bound to every address announces the addresses of the interfaces, in
/// ascending order, and where they are not known the address it is bound
/// to.
pub open spec fn announced(addr: Ipv4, interfaces: Option<Seq<Ipv4>>) -> Seq<Ipv4> {
    if addr.unspecified() && interfaces is Some {
        interfaces->0.sort_by(order())
    } else {
        seq![addr]
    }
}

/// The addresses to announce.
pub fn addresses(addr: Ipv4, interfaces: Option<&Vec<Ipv4>>) -> (shown: Vec<Ipv4>)
    ensures
        shown@ == announced(addr, known(interfaces)),
{
    match interfaces {
        Some(list) if addr.is_unspecified() => sort(list),
        _ => {
            let mut shown: Vec<Ipv4> = Vec::new();
            shown.push(addr);
            assert(shown@ =~= seq![addr]);
            shown
        },
    }
}

/// What an address is announced as: as local where it leads back to the
/// machine, and as one of the network otherwise.
pub open spec fn label(ip: Ipv4) -> Seq<char> {
    if ip.loopback() {
        "Local:   "@
    } else {
        "Network: "@
    }
}

/// The line that announces one address: an arrow in green, the label in
/// bold, and in cyan where the service is reached, with the port in bold.
pub open spec fn line_text(ip: Ipv4, port: u16, protocol: Seq<char>) -> Seq<char> {
    escape(Tint::Green) + "➜  "@ + escape(Tint::RBold) + label(ip) + escape(Tint::RCyan) + protocol
        + "://"@ + ip.text() + ":"@ + painted(Tint::Bold, decimal(port as nat)) + reset()
}

/// The line that announces one address.
pub fn address_line(ip: &Ipv4, port: u16, protocol: &str) -> (line: String)
    ensures
        line@ == line_text(*ip, port, protocol@),
{
    let mut number = String::new();
    push_decimal(&mut number, port as u64);
    assert(number@ =~= decimal(port as nat));
    let mut line = escape_of(Tint::Green);
    line.append("➜  ");
    line.append(escape_of(Tint::RBold).as_str());
    if ip.a == 127 {
        line.append("Local:   ");
    } else {
        line.append("Network: ");
    }
    line.append(escape_of(Tint::RCyan).as_str());
    line.append(protocol);
    line.append("://");
    ip.push_to(&mut line);
    line.append(":");
    line.append(paint_one(Tint::Bold, number.as_str()).as_str());
    line.append("\x1b[0m");
    assert(line@ =~= line_text(*ip, port, protocol@));
    line
}

/// The lines that announce a service bound to `addr` and `port`: one for
/// each address to announce, in their order.
pub fn print_address(
    addr: Ipv4,
    port: u16,
    protocol: &str,
    interfaces: Option<&Vec<Ipv4>>,
) -> (lines: Vec<String>)
    ensures
        lines.len() == announced(addr, known(interfaces)).len(),
        forall|i: int|
            0 <= i < lines.len() ==> (#[trigger] lines@[i])@ == line_text(
                announced(addr, known(interfaces))[i],
                port,
                protocol@,
            ),
{
    let shown = addresses(addr, interfaces);
    let mut lines: Vec<String> = Vec::new();
    let mut i: usize = 0;
    while i < shown.len()
        invariant
            i <= shown.len(),
            lines.len() == i,
            forall|k: int|
                0 <= k < i ==> (#[trigger] lines@[k])@ == line_text(shown@[k], port, protocol@),
        decreases shown.len() - i,
    {
        lines.push(address_line(&shown[i], port, protocol));
        i += 1;
    }
    lines
}

} // verus!
