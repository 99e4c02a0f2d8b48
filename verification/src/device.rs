//! The choice of a rendering device and of the queue family that draws.

use vstd::prelude::*;

verus! {

/// What kind of hardware a rendering device is.
#[derive(Clone, Copy, PartialEq, Eq, Debug, Hash, Structural)]
pub enum DeviceKind {
    /// A separate graphics card.
    DiscreteGpu,
    /// A graphics unit that shares the memory of the host.
    IntegratedGpu,
    /// A graphics unit of a virtual machine.
    VirtualGpu,
    /// The processor of the host.
    Cpu,
    /// Hardware of none of the kinds above.
    Other,
    /// A kind that this library does not know.
    Unknown,
}

/// What the queues of one family can do.
#[derive(Clone, Copy, PartialEq, Eq, Debug, Hash, Structural)]
pub struct QueueFamily {
    /// The queues execute drawing commands.
    pub graphics: bool,
}

impl DeviceKind {
    /// The place of a kind in the order of preference: the smaller the
    /// better.
    pub open spec fn rank(self) -> int {
        match self {
            DeviceKind::DiscreteGpu => 0,
            DeviceKind::IntegratedGpu => 1,
            DeviceKind::VirtualGpu => 2,
            DeviceKind::Cpu => 3,
            DeviceKind::Other => 4,
            DeviceKind::Unknown => 5,
        }
    }

    /// The place of a kind in the order of preference.
    pub fn preference(self) -> (rank: u8)
        ensures
            rank == self.rank(),
    {
        match self {
            DeviceKind::DiscreteGpu => 0,
            DeviceKind::IntegratedGpu => 1,
            DeviceKind::VirtualGpu => 2,
            DeviceKind::Cpu => 3,
            DeviceKind::Other => 4,
            DeviceKind::Unknown => 5,
        }
    }
}

/// Whether `chosen` is the device to use among `devices`: none is
/// preferred to it, and of those that are as good it comes first.
pub open spec fn is_preferred(devices: Seq<DeviceKind>, chosen: int) -> bool {
    &&& 0 <= chosen < devices.len()
    &&& forall|other: int|
        0 <= other < devices.len() ==> devices[chosen].rank() <= (#[trigger] devices[other]).rank()
    &&& forall|earlier: int|
        0 <= earlier < chosen ==> devices[chosen].rank() < (#[trigger] devices[earlier]).rank()
}

/// Whether `chosen` is the first family among `families` that draws.
pub open spec fn is_first_graphics(families: Seq<QueueFamily>, chosen: int) -> bool {
    &&& 0 <= chosen < families.len()
    &&& families[chosen].graphics
    &&& forall|earlier: int| 0 <= earlier < chosen ==> !(#[trigger] families[earlier]).graphics
}

/// Picks the device to render with: the most preferred kind, and among
/// equals the one listed first. There is none only if the list is empty.
pub fn choose_device(devices: &Vec<DeviceKind>) -> (choice: Option<usize>)
    ensures
        match choice {
            Some(chosen) => is_preferred(devices@, chosen as int),
            None => devices@.len() == 0,
        },
{
    if devices.len() == 0 {
        return None;
    }
    let mut best: usize = 0;
    let mut next: usize = 1;
    while next < devices.len()
        invariant
            1 <= next <= devices.len(),
            is_preferred(devices@.take(next as int), best as int),
        decreases devices.len() - next,
    {
        if devices[next].preference() < devices[best].preference() {
            best = next;
        }
        next += 1;
        assert(is_preferred(devices@.take(next as int), best as int));
    }
    assert(devices@.take(next as int) =~= devices@);
    Some(best)
}

/// Picks the queue family to submit drawing commands to: the first one
/// that draws. There is none if no family draws.
pub fn graphics_family(families: &Vec<QueueFamily>) -> (choice: Option<usize>)
    ensures
        match choice {
            Some(chosen) => is_first_graphics(families@, chosen as int),
            None => forall|index: int|
                0 <= index < families@.len() ==> !(#[trigger] families@[index]).graphics,
        },
{
    let mut index: usize = 0;
    while index < families.len()
        invariant
            index <= families.len(),
            forall|earlier: int| 0 <= earlier < index ==> !(#[trigger] families@[earlier]).graphics,
        decreases families.len() - index,
    {
        if families[index].graphics {
            return Some(index);
        }
        index += 1;
    }
    None
}

} // verus!
