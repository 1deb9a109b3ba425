use vstd::prelude::*;

verus! {

/// An inclusive range of ports, given in either order.
#[derive(Clone, Copy, Debug, PartialEq, Eq, Structural)]
pub struct PortRange {
    pub start: u16,
    pub end: u16,
}

impl PortRange {
    /// The smaller of the two bounds.
    pub open spec fn lower(self) -> u16 {
        if self.start <= self.end { self.start } else { self.end }
    }

    /// The larger of the two bounds.
    pub open spec fn upper(self) -> u16 {
        if self.start <= self.end { self.end } else { self.start }
    }

    /// Whether `port` lies between the two bounds, whatever their order.
    pub open spec fn contains(self, port: u16) -> bool {
        self.lower() <= port <= self.upper()
    }

    /// The same range with its bounds swapped.
    pub open spec fn swapped(self) -> PortRange {
        PortRange { start: self.end, end: self.start }
    }
}

/// Whether some range of `ranges` contains `port`.
pub open spec fn covered(port: u16, ranges: Seq<PortRange>) -> bool {
    exists|i: int| 0 <= i < ranges.len() && (#[trigger] ranges[i]).contains(port)
}

/// Tells whether `port` lies in at least one of `ranges`; each range is read
/// with its bounds in either order.
pub fn in_any_range(port: u16, ranges: &[PortRange]) -> (r: bool)
    ensures
        r == covered(port, ranges@),
{
    let mut i: usize = 0;
    while i < ranges.len()
        invariant
            0 <= i <= ranges@.len(),
            forall|j: int| 0 <= j < i ==> !(#[trigger] ranges@[j]).contains(port),
        decreases ranges@.len() - i,
    {
        let r = ranges[i];
        let (a, b) = if r.start <= r.end {
            (r.start, r.end)
        } else {
            (r.end, r.start)
        };
        if port >= a && port <= b {
            assert(ranges@[i as int].contains(port));
            return true;
        }
        i += 1;
    }
    false
}

/// Swapping the bounds of a range changes nothing about which ports it holds.
pub proof fn lemma_swapped_contains(r: PortRange, port: u16)
    ensures
        r.swapped().contains(port) == r.contains(port),
{
}

/// Swapping the bounds of any one range in a list changes nothing about which
/// ports the list covers.
pub proof fn lemma_swapped_covered(ranges: Seq<PortRange>, k: int, port: u16)
    requires
        0 <= k < ranges.len(),
    ensures
        covered(port, ranges.update(k, ranges[k].swapped())) == covered(port, ranges),
{
    let s = ranges.update(k, ranges[k].swapped());
    assert forall|i: int| 0 <= i < ranges.len() implies (#[trigger] s[i]).contains(port)
        == ranges[i].contains(port) by {
        if i == k {
            lemma_swapped_contains(ranges[k], port);
        }
    }
    if covered(port, ranges) {
        let i = choose|i: int| 0 <= i < ranges.len() && (#[trigger] ranges[i]).contains(port);
        assert(s[i].contains(port));
    }
    if covered(port, s) {
        let i = choose|i: int| 0 <= i < s.len() && (#[trigger] s[i]).contains(port);
        assert(ranges[i].contains(port));
    }
}

} // verus!
