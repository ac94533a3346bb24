//! The bookkeeping of a scan: which ports have been handed out for probing,
//! in which order, and which of them have come back as open.
//!
//! The engine itself neither connects nor waits. Its caller asks it for the
//! next port to probe until there is none left, lets go of its own sending
//! end of the channel only then, hands every port that arrives on the
//! channel to the engine, and asks for the result once the channel has
//! closed.

use vstd::prelude::*;
use crate::config::Configuration;
use crate::report::{
    ascending, is_strictly_ascending, lemma_ascending_keeps_ports,
    lemma_ascending_without_duplicates, lemma_report_of_nothing, no_open_ports_line, report_text,
};

verus! {

/// The ports `first`, `first + 1`, ... up to but not including `end`, in
/// this order; none at all where `end` does not exceed `first`.
pub open spec fn port_range(first: u16, end: u16) -> Seq<u16> {
    Seq::new(
        if first < end {
            (end - first) as nat
        } else {
            0
        },
        |i: int| (first + i) as u16,
    )
}

/// A range holds exactly the ports from `first` on that lie below `end`,
/// each once and in ascending order, and nothing else.
pub proof fn lemma_port_range(first: u16, end: u16)
    ensures
        port_range(first, end).len() == (if first < end {
            end - first
        } else {
            0
        }),
        forall|i: int|
            0 <= i < port_range(first, end).len() ==> #[trigger] port_range(first, end)[i] == first
                + i,
        forall|port: u16| #[trigger] port_range(first, end).contains(port) <==> first <= port < end,
{
    let range = port_range(first, end);
    assert forall|port: u16| first <= port < end implies #[trigger] range.contains(port) by {
        assert(range[port - first] == port);
    }
}

/// The state of one scan.
pub struct Engine {
    first: u16,
    end: u16,
    /// The port that is handed out next; those from `first` up to it are out.
    next: u16,
    /// For each port that is out, in order, whether it has been received.
    arrived: Vec<bool>,
    /// The ports received so far, in the order of their arrival.
    open: Vec<u16>,
}

impl Engine {
    /// The first port of the range that is scanned.
    pub closed spec fn first_port(&self) -> u16 {
        self.first
    }

    /// The end of the range that is scanned, itself left out.
    pub closed spec fn end_port(&self) -> u16 {
        self.end
    }

    /// The ports that have been handed out for probing, in that order.
    pub closed spec fn scheduled(&self) -> Seq<u16> {
        port_range(self.first, self.next)
    }

    /// The ports that are still to be handed out, in that order.
    pub closed spec fn pending(&self) -> Seq<u16> {
        port_range(self.next, self.end)
    }

    /// The ports that were received as open, in the order of their arrival.
    pub closed spec fn open_ports(&self) -> Seq<u16> {
        self.open@
    }

    /// What holds of every engine between two calls.
    pub closed spec fn wf(&self) -> bool {
        &&& self.first <= self.next
        &&& (self.next <= self.end || self.next == self.first)
        &&& self.arrived.len() == self.next - self.first
        &&& forall|i: int|
            0 <= i < self.arrived.len() ==> (#[trigger] self.arrived@[i] <==> self.open@.contains(
                (self.first + i) as u16,
            ))
        &&& self.open@.no_duplicates()
        &&& forall|k: int|
            0 <= k < self.open.len() ==> self.first <= #[trigger] self.open@[k] < self.next
    }

    /// No port is skipped and none comes twice: what has been handed out,
    /// followed by what is still to be handed out, is the whole range in
    /// ascending order, so that as many probes are scheduled in all as the
    /// range has ports.
    pub proof fn lemma_schedule(self)
        requires
            self.wf(),
        ensures
            self.scheduled() + self.pending() == port_range(self.first_port(), self.end_port()),
            self.scheduled().len() + self.pending().len() == (if self.first_port()
                < self.end_port() {
                self.end_port() - self.first_port()
            } else {
                0
            }),
    {
        assert(self.scheduled() + self.pending() =~= port_range(self.first, self.end));
    }

    /// The open ports are ports of the range that have been handed out, and
    /// none of them occurs twice.
    pub proof fn lemma_open_ports(self)
        requires
            self.wf(),
        ensures
            self.open_ports().no_duplicates(),
            forall|port: u16| #[trigger]
                self.open_ports().contains(port) ==> self.scheduled().contains(port),
            forall|port: u16| #[trigger]
                self.open_ports().contains(port) ==> self.first_port() <= port
                    < self.end_port(),
    {
        lemma_port_range(self.first, self.next);
    }

    /// A range that ends where it starts, or before, has nothing to hand
    /// out and nothing to find.
    pub proof fn lemma_empty_range(self)
        requires
            self.wf(),
            self.first_port() >= self.end_port(),
        ensures
            self.scheduled() == Seq::<u16>::empty(),
            self.pending() == Seq::<u16>::empty(),
            self.open_ports() == Seq::<u16>::empty(),
    {
        assert(self.scheduled() =~= Seq::<u16>::empty());
        assert(self.pending() =~= Seq::<u16>::empty());
        if self.open@.len() > 0 {
            assert(self.first <= self.open@[0] < self.next);
        }
        assert(self.open_ports() =~= Seq::<u16>::empty());
    }

    /// What the report names at the end of a scan: ports of the range that
    /// were received, each once, by strictly ascending number.
    pub proof fn lemma_ports_of_report(self)
        requires
            self.wf(),
        ensures
            is_strictly_ascending(ascending(self.open_ports())),
            forall|port: u16| #[trigger]
                ascending(self.open_ports()).contains(port) <==> self.open_ports().contains(
                    port,
                ),
            forall|i: int|
                0 <= i < ascending(self.open_ports()).len() ==> self.first_port()
                    <= #[trigger] ascending(self.open_ports())[i] < self.end_port(),
    {
        let named = ascending(self.open_ports());
        self.lemma_open_ports();
        lemma_ascending_without_duplicates(self.open_ports());
        lemma_ascending_keeps_ports(self.open_ports());
        assert forall|i: int| 0 <= i < named.len() implies self.first_port()
            <= #[trigger] named[i] < self.end_port() by {
            assert(named.contains(named[i]));
        }
    }

    /// A scan of an empty range reports that no port is open.
    pub proof fn lemma_empty_scan(self)
        requires
            self.wf(),
            self.first_port() >= self.end_port(),
        ensures
            report_text(self.open_ports()) == seq!['\n'] + no_open_ports_line() + seq!['\n'],
    {
        self.lemma_empty_range();
        lemma_report_of_nothing();
    }

    /// An engine for the range of `config`, with no port handed out yet.
    pub fn new(config: &Configuration) -> (engine: Engine)
        ensures
            engine.wf(),
            engine.first_port() == config.start_port(),
            engine.end_port() == config.end_port(),
            engine.scheduled() == Seq::<u16>::empty(),
            engine.pending() == port_range(config.start_port(), config.end_port()),
            engine.open_ports() == Seq::<u16>::empty(),
    {
        let first: u16 = config.start_port();
        let engine = Engine {
            first,
            end: config.end_port(),
            next: first,
            arrived: Vec::new(),
            open: Vec::new(),
        };
        assert(engine.scheduled() =~= Seq::<u16>::empty());
        engine
    }

    /// Hands out the next port to probe: the smallest that has not been
    /// handed out. `None` says that the whole range is out.
    pub fn next_probe(&mut self) -> (port: Option<u16>)
        requires
            old(self).wf(),
        ensures
            final(self).wf(),
            final(self).first_port() == old(self).first_port(),
            final(self).end_port() == old(self).end_port(),
            final(self).open_ports() == old(self).open_ports(),
            old(self).pending().len() == 0 ==> port is None && final(self).scheduled() == old(
                self,
            ).scheduled() && final(self).pending() == old(self).pending(),
            old(self).pending().len() > 0 ==> port == Some(old(self).pending().first())
                && final(self).scheduled() == old(self).scheduled().push(
                old(self).pending().first(),
            ) && final(self).pending() == old(self).pending().drop_first(),
    {
        if self.next < self.end {
            let port: u16 = self.next;
            self.next = port + 1;
            self.arrived.push(false);
            proof {
                assert(final(self).scheduled() =~= old(self).scheduled().push(port));
                assert(final(self).pending() =~= old(self).pending().drop_first());
            }
            Some(port)
        } else {
            None
        }
    }

    /// Takes a port that arrived on the channel. It is recorded as open if it
    /// has been handed out and has not arrived before; otherwise nothing
    /// changes. Says whether the port was recorded.
    pub fn receive(&mut self, port: u16) -> (recorded: bool)
        requires
            old(self).wf(),
        ensures
            final(self).wf(),
            final(self).first_port() == old(self).first_port(),
            final(self).end_port() == old(self).end_port(),
            final(self).scheduled() == old(self).scheduled(),
            final(self).pending() == old(self).pending(),
            recorded <==> old(self).scheduled().contains(port) && !old(self).open_ports().contains(
                port,
            ),
            final(self).open_ports() == (if recorded {
                old(self).open_ports().push(port)
            } else {
                old(self).open_ports()
            }),
    {
        proof {
            lemma_port_range(self.first, self.next);
        }
        if port < self.first || port >= self.next {
            return false;
        }
        let i: usize = (port - self.first) as usize;
        if self.arrived[i] {
            return false;
        }
        self.arrived[i] = true;
        self.open.push(port);
        proof {
            let before = old(self).open@;
            let after = self.open@;
            assert(after == before.push(port));
            assert(after[before.len() as int] == port);
            assert forall|j: int| 0 <= j < self.arrived.len() implies (#[trigger] self.arrived@[j]
                <==> after.contains((self.first + j) as u16)) by {
                let other = (self.first + j) as u16;
                if j == i {
                    assert(other == port);
                } else {
                    assert(self.arrived@[j] == old(self).arrived@[j]);
                    if before.contains(other) {
                        let k = choose|k: int| 0 <= k < before.len() && before[k] == other;
                        assert(after[k] == other);
                    }
                    if after.contains(other) {
                        let k = choose|k: int| 0 <= k < after.len() && after[k] == other;
                        assert(before[k] == other);
                    }
                }
            }
        }
        true
    }

    /// Whether every port of the range has been handed out.
    pub fn all_scheduled(&self) -> (done: bool)
        requires
            self.wf(),
        ensures
            done <==> self.pending().len() == 0,
    {
        self.next >= self.end
    }

    /// Ends the scan: gives the open ports in the order of their arrival,
    /// provided that no port of the range was left out.
    pub fn finish(self) -> (open_ports: Option<Vec<u16>>)
        requires
            self.wf(),
        ensures
            open_ports is Some <==> self.pending().len() == 0,
            open_ports matches Some(ports) ==> ports@ == self.open_ports(),
    {
        if self.next >= self.end {
            Some(self.open)
        } else {
            None
        }
    }
}

} // verus!
