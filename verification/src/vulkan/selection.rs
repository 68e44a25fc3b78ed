use vstd::prelude::*;

verus! {

/// The type of a physical device, as the driver reports it.
#[derive(Clone, Copy, Debug, PartialEq, Eq, Structural)]
pub enum DeviceKind {
    Other,
    IntegratedGpu,
    DiscreteGpu,
    VirtualGpu,
    Cpu,
}

/// What the selection reads of one queue family of a device: whether it can
/// run graphics work, and whether it can present to the window's surface.
#[derive(Clone, Copy, Debug, PartialEq, Eq, Structural)]
pub struct QueueFamilyInfo {
    pub graphics: bool,
    pub surface_support: bool,
}

/// What the selection reads of one physical device.
#[derive(Clone, Debug)]
pub struct PhysicalDeviceInfo {
    pub supports_swapchain: bool,
    pub queue_families: Vec<QueueFamilyInfo>,
    pub kind: DeviceKind,
}

/// The preference given to a device type: lower is better. Every known type
/// ranks 0; only `Other` ranks 4.
pub open spec fn kind_rank(kind: DeviceKind) -> int {
    match kind {
        DeviceKind::DiscreteGpu => 0,
        DeviceKind::IntegratedGpu => 0,
        DeviceKind::VirtualGpu => 0,
        DeviceKind::Cpu => 0,
        DeviceKind::Other => 4,
    }
}

/// Some queue family can both run graphics work and present to the surface.
pub open spec fn can_present(families: Seq<QueueFamilyInfo>) -> bool {
    exists|i: int| 0 <= i < families.len() && #[trigger] families[i].graphics && families[i].surface_support
}

/// A device can be used when it supports swapchains and can present.
pub open spec fn eligible(d: PhysicalDeviceInfo) -> bool {
    d.supports_swapchain && can_present(d.queue_families@)
}

/// Device `i` is eligible, no eligible device ranks better, and no
/// eligible device before it ranks as well.
pub open spec fn best_device(devices: Seq<PhysicalDeviceInfo>, i: int) -> bool {
    &&& 0 <= i < devices.len()
    &&& eligible(devices[i])
    &&& forall|d: int|
        0 <= d < devices.len() && eligible(#[trigger] devices[d]) ==> kind_rank(devices[i].kind)
            <= kind_rank(devices[d].kind)
    &&& forall|d: int|
        0 <= d < i && eligible(#[trigger] devices[d]) ==> kind_rank(devices[i].kind) < kind_rank(
            devices[d].kind,
        )
}

/// A device of a known type is always preferred: when some eligible device
/// has a type other than `Other`, so has the chosen one.
pub proof fn lemma_known_type_preferred(devices: Seq<PhysicalDeviceInfo>, chosen: int, known: int)
    requires
        best_device(devices, chosen),
        0 <= known < devices.len(),
        eligible(devices[known]),
        devices[known].kind != DeviceKind::Other,
    ensures
        devices[chosen].kind != DeviceKind::Other,
{
    assert(kind_rank(devices[chosen].kind) <= kind_rank(devices[known].kind));
}

/// At most one device is the best: the choice is determined by the devices.
pub proof fn lemma_best_device_unique(devices: Seq<PhysicalDeviceInfo>, i: int, j: int)
    requires
        best_device(devices, i),
        best_device(devices, j),
    ensures
        i == j,
{
    if i < j {
        assert(kind_rank(devices[j].kind) < kind_rank(devices[i].kind));
    } else if j < i {
        assert(kind_rank(devices[i].kind) < kind_rank(devices[j].kind));
    }
}

/// The preference given to a device type, as a number.
pub fn device_kind_rank(kind: DeviceKind) -> (r: u32)
    ensures
        r == kind_rank(kind),
{
    match kind {
        DeviceKind::DiscreteGpu => 0,
        DeviceKind::IntegratedGpu => 0,
        DeviceKind::VirtualGpu => 0,
        DeviceKind::Cpu => 0,
        _ => 4,
    }
}

/// The index of the first family that can run graphics work and present.
fn first_presentable_family(families: &Vec<QueueFamilyInfo>) -> (r: Option<usize>)
    ensures
        r is None <==> !can_present(families@),
        r matches Some(i) ==> i < families@.len() && families@[i as int].graphics
            && families@[i as int].surface_support,
{
    let mut i: usize = 0;
    while i < families.len()
        invariant
            i <= families@.len(),
            forall|j: int| 0 <= j < i ==> !(#[trigger] families@[j].graphics && families@[j].surface_support),
        decreases families@.len() - i,
    {
        if families[i].graphics && families[i].surface_support {
            return Some(i);
        }
        i += 1;
    }
    None
}

/// Picks the device to render with: among the devices that support
/// swapchains and have a family that runs graphics work and presents to the
/// surface, the first one of the best-ranked type. `None` when no device
/// qualifies.
pub fn choose_physical_device(devices: &Vec<PhysicalDeviceInfo>) -> (r: Option<usize>)
    ensures
        r is None <==> forall|d: int| 0 <= d < devices@.len() ==> !eligible(#[trigger] devices@[d]),
        r matches Some(i) ==> best_device(devices@, i as int),
{
    let mut best: Option<usize> = None;
    let mut best_rank: u32 = 0;
    let mut d: usize = 0;
    while d < devices.len()
        invariant
            d <= devices@.len(),
            best is None <==> forall|e: int| 0 <= e < d ==> !eligible(#[trigger] devices@[e]),
            best matches Some(i) ==> {
                &&& i < d
                &&& eligible(devices@[i as int])
                &&& best_rank == kind_rank(devices@[i as int].kind)
                &&& forall|e: int|
                    0 <= e < d && eligible(#[trigger] devices@[e]) ==> best_rank <= kind_rank(
                        devices@[e].kind,
                    )
                &&& forall|e: int|
                    0 <= e < i && eligible(#[trigger] devices@[e]) ==> best_rank < kind_rank(
                        devices@[e].kind,
                    )
            },
        decreases devices@.len() - d,
    {
        let device = &devices[d];
        if device.supports_swapchain {
            if let Some(_q) = first_presentable_family(&device.queue_families) {
                let rank = device_kind_rank(device.kind);
                match best {
                    None => {
                        best = Some(d);
                        best_rank = rank;
                    },
                    Some(_) => {
                        if rank < best_rank {
                            best = Some(d);
                            best_rank = rank;
                        }
                    },
                }
            }
        }
        d += 1;
    }
    best
}

/// The index of the first queue family that can run graphics work, as a
/// `u32` (an index past `u32::MAX` wraps, as `as u32` does). `None` when no
/// family can.
pub fn graphics_queue_family_index(families: &Vec<QueueFamilyInfo>) -> (r: Option<u32>)
    ensures
        r is None <==> forall|j: int| 0 <= j < families@.len() ==> !(#[trigger] families@[j]).graphics,
        r is Some ==> exists|i: int|
            0 <= i < families@.len() && (#[trigger] families@[i]).graphics && (forall|j: int|
                0 <= j < i ==> !(#[trigger] families@[j]).graphics) && r == Some(i as u32),
{
    let mut i: usize = 0;
    while i < families.len()
        invariant
            i <= families@.len(),
            forall|j: int| 0 <= j < i ==> !(#[trigger] families@[j]).graphics,
        decreases families@.len() - i,
    {
        if families[i].graphics {
            return Some(i as u32);
        }
        i += 1;
    }
    None
}

/// Every known device type is as good as any other: discrete, integrated,
/// virtual GPUs and CPUs all rank 0, and only an unknown type ranks worse,
/// at 4.
pub proof fn lemma_known_types_rank_equal()
    ensures
        kind_rank(DeviceKind::DiscreteGpu) == 0,
        kind_rank(DeviceKind::IntegratedGpu) == 0,
        kind_rank(DeviceKind::VirtualGpu) == 0,
        kind_rank(DeviceKind::Cpu) == 0,
        kind_rank(DeviceKind::Other) == 4,
{
}

/// The device chosen is the first usable device of a known type: when some
/// usable device has a known type, the best device is exactly the first
/// such device, whatever its type.
pub proof fn lemma_first_known_usable_device_is_best(devices: Seq<PhysicalDeviceInfo>, i: int)
    requires
        0 <= i < devices.len(),
        eligible(devices[i]),
        devices[i].kind != DeviceKind::Other,
        forall|d: int| 0 <= d < i && eligible(#[trigger] devices[d]) ==> devices[d].kind == DeviceKind::Other,
    ensures
        best_device(devices, i),
        forall|j: int| best_device(devices, j) ==> j == i,
{
    assert forall|j: int| best_device(devices, j) implies j == i by {
        lemma_best_device_unique(devices, i, j);
    }
}

} // verus!
