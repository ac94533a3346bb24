//! The report that ends a scan: the open ports in ascending order, one
//! line each, or one line that says that there are none.

use vstd::prelude::*;
use vstd::string::StringExecFns;
use crate::numeral::{decimal, port_text};

verus! {

/// The order in which the report names the ports: by their number.
pub open spec fn port_order() -> spec_fn(u16, u16) -> bool {
    |a: u16, b: u16| a <= b
}

/// No port is followed, anywhere later in the sequence, by a smaller one.
pub open spec fn is_ascending(ports: Seq<u16>) -> bool {
    forall|i: int, j: int| 0 <= i < j < ports.len() ==> ports[i] <= ports[j]
}

/// Every port is followed only by larger ones, so that none occurs twice.
pub open spec fn is_strictly_ascending(ports: Seq<u16>) -> bool {
    forall|i: int, j: int| 0 <= i < j < ports.len() ==> ports[i] < ports[j]
}

/// The same ports, each as often as before, in ascending order.
pub open spec fn ascending(ports: Seq<u16>) -> Seq<u16> {
    ports.sort_by(port_order())
}

/// `ascending` rearranges: the result is in ascending order and holds each
/// port exactly as often as the argument does.
pub proof fn lemma_ascending_rearranges(ports: Seq<u16>)
    ensures
        is_ascending(ascending(ports)),
        ascending(ports).to_multiset() == ports.to_multiset(),
        ascending(ports).len() == ports.len(),
{
    assert(vstd::relations::total_ordering(port_order()));
    ports.lemma_sort_by_ensures(port_order());
    ports.to_multiset_ensures();
    ascending(ports).to_multiset_ensures();
    let sorted = ascending(ports);
    assert forall|i: int, j: int| 0 <= i < j < sorted.len() implies sorted[i] <= sorted[j] by {
        assert(port_order()(sorted[i], sorted[j]));
    }
}

/// There is one ascending rearrangement only: whatever is in ascending order
/// and holds the same ports as often is the value of `ascending`.
pub proof fn lemma_ascending_is_unique(ports: Seq<u16>, sorted: Seq<u16>)
    requires
        is_ascending(sorted),
        sorted.to_multiset() == ports.to_multiset(),
    ensures
        sorted == ascending(ports),
{
    assert(vstd::relations::total_ordering(port_order()));
    lemma_ascending_rearranges(ports);
    assert(vstd::relations::sorted_by(sorted, port_order()));
    assert(vstd::relations::sorted_by(ascending(ports), port_order()));
    vstd::seq_lib::lemma_sorted_unique(sorted, ascending(ports), port_order());
}

/// Putting ports in order neither adds a port nor loses one.
pub proof fn lemma_ascending_keeps_ports(ports: Seq<u16>)
    ensures
        forall|port: u16| #[trigger] ascending(ports).contains(port) <==> ports.contains(port),
{
    lemma_ascending_rearranges(ports);
    ports.to_multiset_ensures();
    ascending(ports).to_multiset_ensures();
    assert forall|port: u16| #[trigger] ascending(ports).contains(port) <==> ports.contains(
        port,
    ) by {
        assert(ascending(ports).to_multiset().count(port) == ports.to_multiset().count(port));
    }
}

/// Where no port occurs twice, each port in the ascending order is
/// followed by larger ones only.
pub proof fn lemma_ascending_without_duplicates(ports: Seq<u16>)
    requires
        ports.no_duplicates(),
    ensures
        is_strictly_ascending(ascending(ports)),
        ascending(ports).no_duplicates(),
{
    let sorted = ascending(ports);
    lemma_ascending_rearranges(ports);
    ports.lemma_multiset_has_no_duplicates();
    sorted.lemma_multiset_has_no_duplicates_conv();
}

/// Ports that are in ascending order already stay as they are.
pub proof fn lemma_ascending_keeps_order(ports: Seq<u16>)
    requires
        is_ascending(ports),
    ensures
        ascending(ports) == ports,
{
    lemma_ascending_is_unique(ports, ports);
}

/// Putting ports in order a second time changes nothing.
pub proof fn lemma_ascending_twice(ports: Seq<u16>)
    ensures
        ascending(ascending(ports)) == ascending(ports),
{
    lemma_ascending_rearranges(ports);
    lemma_ascending_keeps_order(ascending(ports));
}

/// The method `sort` of std's slices, on a vector of ports. Believed of it:
/// afterwards the vector is in ascending order and holds every port exactly
/// as often as before.
#[verifier::external_body]
fn sort_in_place(ports: &mut Vec<u16>)
    ensures
        is_ascending(final(ports)@),
        final(ports)@.to_multiset() == old(ports)@.to_multiset(),
{
    ports.sort();
}

/// Puts ports into ascending order.
pub fn sort_ports(ports: Vec<u16>) -> (sorted: Vec<u16>)
    ensures
        sorted@ == ascending(ports@),
{
    let mut sorted = ports;
    sort_in_place(&mut sorted);
    proof {
        lemma_ascending_is_unique(ports@, sorted@);
    }
    sorted
}

/// The line that reports one open port.
pub open spec fn port_line(port: u16) -> Seq<char> {
    decimal(port as nat) + " is open"@
}

/// The line that stands for an empty report.
pub open spec fn no_open_ports_line() -> Seq<char> {
    "No open Ports are found"@
}

/// The lines of the report on `open_ports`, which may come in any order:
/// one line for each port, by ascending port number, or the one line that
/// says that there is none.
pub open spec fn report_lines(open_ports: Seq<u16>) -> Seq<Seq<char>> {
    if open_ports.len() == 0 {
        seq![no_open_ports_line()]
    } else {
        ascending(open_ports).map_values(|port: u16| port_line(port))
    }
}

/// The lines one after the other, each closed by a line feed.
pub open spec fn joined(lines: Seq<Seq<char>>) -> Seq<char>
    decreases lines.len(),
{
    if lines.len() == 0 {
        Seq::empty()
    } else {
        joined(lines.drop_last()) + lines.last() + seq!['\n']
    }
}

/// All that is written once the scan is over: the line feed that ends the
/// row of progress dots, then the lines of the report.
pub open spec fn report_text(open_ports: Seq<u16>) -> Seq<char> {
    seq!['\n'] + joined(report_lines(open_ports))
}

/// The report on no ports is the one line that says so.
pub proof fn lemma_report_of_nothing()
    ensures
        report_lines(Seq::<u16>::empty()) == seq![no_open_ports_line()],
        report_text(Seq::<u16>::empty()) == seq!['\n'] + no_open_ports_line() + seq!['\n'],
{
    let lines = seq![no_open_ports_line()];
    assert(lines.drop_last() =~= Seq::<Seq<char>>::empty());
    assert(joined(lines.drop_last()) =~= Seq::<char>::empty());
    assert(joined(lines) =~= no_open_ports_line() + seq!['\n']);
    assert(report_text(Seq::<u16>::empty()) =~= seq!['\n'] + no_open_ports_line() + seq!['\n']);
}

/// The report does not depend on the order in which the ports arrived:
/// the same ports, each as often, give the same report.
pub proof fn lemma_report_of_rearranged(open_ports: Seq<u16>, rearranged: Seq<u16>)
    requires
        rearranged.to_multiset() == open_ports.to_multiset(),
    ensures
        report_lines(rearranged) == report_lines(open_ports),
        report_text(rearranged) == report_text(open_ports),
{
    lemma_ascending_rearranges(open_ports);
    lemma_ascending_rearranges(rearranged);
    lemma_ascending_is_unique(open_ports, ascending(rearranged));
}

/// The report on ports that have been put in ascending order already is
/// the report on the ports as they were.
pub proof fn lemma_report_of_ascending(open_ports: Seq<u16>)
    ensures
        report_lines(ascending(open_ports)) == report_lines(open_ports),
        report_text(ascending(open_ports)) == report_text(open_ports),
{
    lemma_ascending_rearranges(open_ports);
    lemma_report_of_rearranged(open_ports, ascending(open_ports));
}

/// Writes the lines of the report on the ports that were found open.
pub fn lines(open_ports: Vec<u16>) -> (lines: Vec<String>)
    ensures
        lines.deep_view() == report_lines(open_ports@),
{
    let sorted = sort_ports(open_ports);
    proof {
        lemma_ascending_rearranges(open_ports@);
    }
    let mut rows: Vec<String> = Vec::new();
    if sorted.len() == 0 {
        rows.push(String::from_str("No open Ports are found"));
        assert(rows.deep_view() =~= report_lines(open_ports@));
    } else {
        let mut i: usize = 0;
        while i < sorted.len()
            invariant
                i <= sorted.len(),
                rows.len() == i,
                forall|k: int| 0 <= k < i ==> (#[trigger] rows@[k])@ == port_line(sorted@[k]),
            decreases sorted.len() - i,
        {
            let mut row = port_text(sorted[i]);
            row.append(" is open");
            rows.push(row);
            i += 1;
        }
        assert(rows.deep_view() =~= report_lines(open_ports@));
    }
    rows
}

/// Writes what follows the progress dots: a line feed and the report.
pub fn render(open_ports: Vec<u16>) -> (text: String)
    ensures
        text@ == report_text(open_ports@),
{
    let rows = lines(open_ports);
    let mut text = String::from_str("\n");
    proof {
        reveal_strlit("\n");
        assert(text@ =~= seq!['\n'] + joined(rows.deep_view().take(0)));
    }
    let mut i: usize = 0;
    while i < rows.len()
        invariant
            i <= rows.len(),
            text@ == seq!['\n'] + joined(rows.deep_view().take(i as int)),
        decreases rows.len() - i,
    {
        proof {
            reveal_strlit("\n");
            let before = rows.deep_view().take(i as int);
            let after = rows.deep_view().take(i + 1);
            assert(after.drop_last() =~= before);
            assert(after.last() == rows@[i as int]@);
        }
        text.append(rows[i].as_str());
        text.append("\n");
        i += 1;
        assert(text@ =~= seq!['\n'] + joined(rows.deep_view().take(i as int)));
    }
    assert(rows.deep_view().take(i as int) =~= rows.deep_view());
    text
}

} // verus!
