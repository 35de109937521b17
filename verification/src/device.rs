//! Device inventory: capability snapshots of the physical GPUs the driver
//! reports, the filter that decides which of them are usable, the performance
//! score, and the ranking that orders them best-first.

use vstd::prelude::*;
use vstd::multiset::Multiset;
use vstd::seq_lib::group_to_multiset_ensures;

verus! {

/// What one queue family of a physical device offers.
#[derive(Clone, Copy, PartialEq, Eq, Structural, Debug)]
pub struct QueueFamily {
    pub queue_count: u32,
    pub graphics: bool,
    pub compute: bool,
}

/// The broad hardware class of a physical device.
#[derive(Clone, Copy, PartialEq, Eq, Structural, Debug)]
pub enum DeviceType {
    Other,
    IntegratedGpu,
    DiscreteGpu,
    VirtualGpu,
    Cpu,
}

/// A surface pixel format paired with a color space, as the driver encodes
/// them (numeric format and color-space codes).
#[derive(Clone, Copy, PartialEq, Eq, Structural, Debug)]
pub struct SurfaceFormat {
    pub format: u32,
    pub color_space: u32,
}

/// Everything the ranking logic reads about one physical device, gathered
/// up front by whoever talks to the driver.  `handle` identifies the device
/// to that caller and is carried through untouched.
#[derive(Clone, Debug)]
pub struct DeviceCaps {
    pub handle: u64,
    pub queue_families: Vec<QueueFamily>,
    pub extensions: Vec<String>,
    pub has_surface_support: bool,
    pub surface_formats: Vec<SurfaceFormat>,
    pub present_modes: Vec<u32>,
    pub largest_heap_size: u64,
    pub max_viewport_width: u32,
    pub max_viewport_height: u32,
    pub device_type: DeviceType,
}

/// One entry of the ranked device list: the snapshot it was built from, the
/// chosen queue family indices, and the score the ranking sorted by.
#[derive(Clone, Debug)]
pub struct GpuInfo {
    pub caps: DeviceCaps,
    pub graphics_family_index: usize,
    pub compute_family_index: usize,
    pub performance_score: u64,
}

/// Why the inventory can fail as a whole.
#[derive(Clone, Copy, PartialEq, Eq, Structural, Debug)]
pub enum DeviceError {
    /// Not a single enumerated device passed the capability filter; the
    /// caller treats this as fatal.
    NoUsableDevice,
}

/// Whether a queue family can serve the given role: it must expose at least
/// one queue with the graphics bit (`graphics == true`) or the compute bit
/// (`graphics == false`).
pub open spec fn family_matches(f: QueueFamily, graphics: bool) -> bool {
    f.queue_count >= 1 && if graphics {
        f.graphics
    } else {
        f.compute
    }
}

/// Index of the first queue family serving the given role, searching from
/// position `i` on.
pub open spec fn first_family_from(fams: Seq<QueueFamily>, graphics: bool, i: int) -> Option<int>
    decreases fams.len() - i,
{
    if i < 0 || i >= fams.len() {
        None
    } else if family_matches(fams[i], graphics) {
        Some(i)
    } else {
        first_family_from(fams, graphics, i + 1)
    }
}

/// Index of the first queue family serving the given role.
pub open spec fn first_family(fams: Seq<QueueFamily>, graphics: bool) -> Option<int> {
    first_family_from(fams, graphics, 0)
}

/// The two device extensions every usable device must offer.
pub open spec fn required_extension(k: int) -> Seq<char> {
    if k == 0 {
        "VK_KHR_swapchain"@
    } else {
        "VK_EXT_shader_object"@
    }
}

/// Whether `exts` contains an extension with the given name.
pub open spec fn has_extension(exts: Seq<String>, name: Seq<char>) -> bool {
    exists|i: int| 0 <= i < exts.len() && exts[i]@ == name
}

/// Whether a device offers both required extensions.
pub open spec fn has_required_extensions(caps: DeviceCaps) -> bool {
    &&& has_extension(caps.extensions@, required_extension(0))
    &&& has_extension(caps.extensions@, required_extension(1))
}

/// The capability filter: a device is kept exactly when it has a queue
/// family for graphics and one for compute work, both required extensions,
/// surface support, and non-empty surface-format and present-mode lists.
pub open spec fn usable(caps: DeviceCaps) -> bool {
    &&& caps.queue_families@.len() > 0
    &&& first_family(caps.queue_families@, true) is Some
    &&& first_family(caps.queue_families@, false) is Some
    &&& has_required_extensions(caps)
    &&& caps.has_surface_support
    &&& caps.surface_formats@.len() > 0
    &&& caps.present_modes@.len() > 0
}

/// Score weight by device class: discrete and virtual GPUs are strongly
/// preferred, integrated ones mildly, anything else not at all.
pub open spec fn type_multiplier(t: DeviceType) -> int {
    match t {
        DeviceType::DiscreteGpu => 10,
        DeviceType::VirtualGpu => 10,
        DeviceType::IntegratedGpu => 2,
        DeviceType::Other => 1,
        DeviceType::Cpu => 1,
    }
}

/// Performance score: largest memory heap plus maximum viewport area, each
/// scaled down, then weighted by the device class.
pub open spec fn device_score(caps: DeviceCaps) -> int {
    (caps.largest_heap_size as int / 1000
        + (caps.max_viewport_width as int * caps.max_viewport_height as int) / 1000)
        * type_multiplier(caps.device_type)
}

/// A ranked entry is well formed when its snapshot passed the filter, its
/// family indices are the first matching ones, and its score is the
/// device score of its snapshot.
pub open spec fn gpu_well_formed(g: GpuInfo) -> bool {
    &&& usable(g.caps)
    &&& first_family(g.caps.queue_families@, true) == Some(g.graphics_family_index as int)
    &&& first_family(g.caps.queue_families@, false) == Some(g.compute_family_index as int)
    &&& g.performance_score == device_score(g.caps)
}

/// A ranked list is sorted by non-increasing score.
pub open spec fn sorted_desc(s: Seq<GpuInfo>) -> bool {
    forall|i: int, j: int|
        0 <= i < j < s.len() ==> #[trigger] s[i].performance_score >= #[trigger] s[
            j
        ].performance_score
}

/// Computes the performance score of one device.
pub fn score_device(caps: &DeviceCaps) -> (score: u64)
    ensures
        score == device_score(*caps),
{
    let heap_part: u64 = caps.largest_heap_size / 1000;
    let w: u64 = caps.max_viewport_width as u64;
    let h: u64 = caps.max_viewport_height as u64;
    assert(w * h <= 0xffff_ffffu64 * 0xffff_ffffu64) by (nonlinear_arith)
        requires
            w <= 0xffff_ffffu64,
            h <= 0xffff_ffffu64,
    ;
    let area: u64 = w * h;
    let area_part: u64 = area / 1000;
    assert(heap_part <= 0xffff_ffff_ffff_ffffu64 / 1000 && area_part <= 0xffff_ffff_ffff_ffffu64
        / 1000) by {
        vstd::arithmetic::div_mod::lemma_div_is_ordered(
            caps.largest_heap_size as int,
            u64::MAX as int,
            1000,
        );
        vstd::arithmetic::div_mod::lemma_div_is_ordered(area as int, u64::MAX as int, 1000);
    };
    let base: u64 = heap_part + area_part;
    let multiplier: u64 = match caps.device_type {
        DeviceType::DiscreteGpu => 10,
        DeviceType::VirtualGpu => 10,
        DeviceType::IntegratedGpu => 2,
        DeviceType::Other => 1,
        DeviceType::Cpu => 1,
    };
    base * multiplier
}

/// The names of the two device extensions the backend requires.
pub fn get_required_device_exts() -> (r: Vec<&'static str>)
    ensures
        r@.len() == 2,
        r@[0]@ == required_extension(0),
        r@[1]@ == required_extension(1),
{
    let mut v: Vec<&'static str> = Vec::new();
    v.push("VK_KHR_swapchain");
    v.push("VK_EXT_shader_object");
    v
}

/// Finds the first queue family serving the given role.
pub fn find_queue_family(fams: &Vec<QueueFamily>, graphics: bool) -> (r: Option<usize>)
    ensures
        match r {
            Some(i) => first_family(fams@, graphics) == Some(i as int),
            None => first_family(fams@, graphics) is None,
        },
{
    let n = fams.len();
    for i in 0..n
        invariant
            n == fams@.len(),
            first_family(fams@, graphics) == first_family_from(fams@, graphics, i as int),
    {
        let f = fams[i];
        if f.queue_count >= 1 && (if graphics {
            f.graphics
        } else {
            f.compute
        }) {
            return Some(i);
        }
    }
    None
}

/// Checks whether the extension list contains the given name.
fn contains_extension(exts: &Vec<String>, name: &String) -> (b: bool)
    ensures
        b == has_extension(exts@, name@),
{
    let n = exts.len();
    for i in 0..n
        invariant
            n == exts@.len(),
            forall|j: int| 0 <= j < i ==> exts@[j]@ != name@,
    {
        if exts[i].eq(name) {
            return true;
        }
    }
    false
}

/// Decides whether one device passes the capability filter.
pub fn device_usable(caps: &DeviceCaps) -> (b: bool)
    ensures
        b == usable(*caps),
{
    if caps.queue_families.len() == 0 {
        return false;
    }
    if find_queue_family(&caps.queue_families, true).is_none() {
        return false;
    }
    if find_queue_family(&caps.queue_families, false).is_none() {
        return false;
    }
    let swapchain_ext = "VK_KHR_swapchain".to_owned();
    if !contains_extension(&caps.extensions, &swapchain_ext) {
        return false;
    }
    let shader_object_ext = "VK_EXT_shader_object".to_owned();
    if !contains_extension(&caps.extensions, &shader_object_ext) {
        return false;
    }
    if !caps.has_surface_support {
        return false;
    }
    if caps.surface_formats.len() == 0 {
        return false;
    }
    if caps.present_modes.len() == 0 {
        return false;
    }
    true
}

/// Builds the ranked entry for one usable device.
fn describe_device(caps: DeviceCaps) -> (g: GpuInfo)
    requires
        usable(caps),
    ensures
        gpu_well_formed(g),
        g.caps == caps,
{
    let graphics_idx = match find_queue_family(&caps.queue_families, true) {
        Some(i) => i,
        None => 0,  // ruled out by the filter
    };
    let compute_idx = match find_queue_family(&caps.queue_families, false) {
        Some(i) => i,
        None => 0,  // ruled out by the filter
    };
    let score = score_device(&caps);
    GpuInfo {
        caps,
        graphics_family_index: graphics_idx,
        compute_family_index: compute_idx,
        performance_score: score,
    }
}

/// The subsequence of `devices` that passes the capability filter, in order.
pub open spec fn usable_devices(devices: Seq<DeviceCaps>) -> Seq<DeviceCaps>
    decreases devices.len(),
{
    if devices.len() == 0 {
        Seq::empty()
    } else {
        let rest = usable_devices(devices.drop_last());
        if usable(devices.last()) {
            rest.push(devices.last())
        } else {
            rest
        }
    }
}

/// The capability snapshots of a ranked list, in order.
pub open spec fn ranked_caps(gpus: Seq<GpuInfo>) -> Seq<DeviceCaps>
    decreases gpus.len(),
{
    if gpus.len() == 0 {
        Seq::empty()
    } else {
        ranked_caps(gpus.drop_last()).push(gpus.last().caps)
    }
}

/// `ranked_caps` maps each entry to its snapshot, position by position.
proof fn lemma_ranked_caps_pointwise(s: Seq<GpuInfo>)
    ensures
        ranked_caps(s).len() == s.len(),
        forall|i: int| 0 <= i < s.len() ==> ranked_caps(s)[i] == #[trigger] s[i].caps,
    decreases s.len(),
{
    if s.len() > 0 {
        lemma_ranked_caps_pointwise(s.drop_last());
        assert forall|i: int| 0 <= i < s.len() implies ranked_caps(s)[i] == #[trigger] s[
            i
        ].caps by {
            if i < s.len() - 1 {
                assert(s.drop_last()[i] == s[i]);
                assert(ranked_caps(s.drop_last())[i] == s.drop_last()[i].caps);
            } else {
                assert(s.last() == s[i]);
            }
        }
    }
}

/// Ranks the enumerated devices: exactly those passing the capability filter
/// appear, each described by its first matching family indices and its
/// score, sorted by non-increasing score.  Fails exactly when none passes.
pub fn rank_devices(devices: Vec<DeviceCaps>) -> (r: Result<Vec<GpuInfo>, DeviceError>)
    ensures
        match r {
            Ok(gpus) => {
                &&& gpus@.len() > 0
                &&& forall|i: int| 0 <= i < gpus@.len() ==> gpu_well_formed(#[trigger] gpus@[i])
                &&& ranked_caps(gpus@).to_multiset() == usable_devices(devices@).to_multiset()
                &&& sorted_desc(gpus@)
            },
            Err(e) => e == DeviceError::NoUsableDevice && usable_devices(devices@).len() == 0,
        },
{
    let ghost all = devices@;
    let mut kept: Vec<GpuInfo> = Vec::new();
    let mut rest = devices;
    let ghost mut seen: Seq<DeviceCaps> = Seq::empty();
    while rest.len() > 0
        invariant
            seen + rest@ =~= all,
            ranked_caps(kept@) =~= usable_devices(seen),
            forall|i: int| 0 <= i < kept@.len() ==> gpu_well_formed(#[trigger] kept@[i]),
        decreases rest@.len(),
    {
        let caps = rest.remove(0);
        let ghost c = caps;
        proof {
            assert(seen.push(c) + rest@ =~= all);
            assert(seen.push(c).drop_last() =~= seen);
            assert(usable_devices(seen.push(c)) == if usable(c) {
                usable_devices(seen).push(c)
            } else {
                usable_devices(seen)
            });
        }
        if device_usable(&caps) {
            let ghost pre_kept = kept@;
            let g = describe_device(caps);
            kept.push(g);
            proof {
                assert(kept@ =~= pre_kept.push(g));
                assert(kept@.drop_last() =~= pre_kept);
                assert(ranked_caps(kept@) == ranked_caps(pre_kept).push(c));
            }
        }
        proof {
            seen = seen.push(c);
        }
    }
    proof {
        assert(seen =~= all);
    }
    if kept.len() == 0 {
        proof {
            lemma_ranked_caps_pointwise(kept@);
        }
        return Err(DeviceError::NoUsableDevice);
    }
    let ghost before_sort = kept@;
    let sorted = sort_gpus_desc(kept);
    proof {
        broadcast use group_to_multiset_ensures;

        lemma_ranked_caps_multiset(sorted@, before_sort);
        assert forall|i: int| 0 <= i < sorted@.len() implies gpu_well_formed(
            #[trigger] sorted@[i],
        ) by {
            assert(sorted@.contains(sorted@[i]));
            assert(before_sort.to_multiset().count(sorted@[i]) > 0);
            assert(before_sort.contains(sorted@[i]));
            let j = choose|j: int| 0 <= j < before_sort.len() && before_sort[j] == sorted@[i];
            assert(gpu_well_formed(before_sort[j]));
        }
    }
    Ok(sorted)
}

/// Two rankings with the same entries describe the same snapshots.
proof fn lemma_ranked_caps_multiset(a: Seq<GpuInfo>, b: Seq<GpuInfo>)
    requires
        a.to_multiset() == b.to_multiset(),
    ensures
        ranked_caps(a).to_multiset() == ranked_caps(b).to_multiset(),
    decreases a.len(),
{
    broadcast use group_to_multiset_ensures;

    lemma_ranked_caps_pointwise(a);
    lemma_ranked_caps_pointwise(b);
    if a.len() == 0 {
        assert(b.to_multiset().len() == 0);
        assert(ranked_caps(a) =~= Seq::<DeviceCaps>::empty());
        assert(ranked_caps(b) =~= Seq::<DeviceCaps>::empty());
    } else {
        let x = a.last();
        assert(a.to_multiset().count(x) > 0) by {
            assert(a.contains(x));
        }
        assert(b.contains(x));
        let j = choose|j: int| 0 <= j < b.len() && b[j] == x;
        let a1 = a.drop_last();
        let b1 = b.remove(j);
        assert(a1.push(x) =~= a);
        assert(a1.push(x).to_multiset() == a1.to_multiset().insert(x));
        assert(a1.to_multiset() =~= a.to_multiset().remove(x));
        assert(b1.to_multiset() == b.to_multiset().remove(x));
        lemma_ranked_caps_multiset(a1, b1);
        lemma_ranked_caps_pointwise(a1);
        lemma_ranked_caps_pointwise(b1);
        assert(ranked_caps(a) == ranked_caps(a1).push(x.caps));
        assert(ranked_caps(a1).push(x.caps).to_multiset() == ranked_caps(
            a1,
        ).to_multiset().insert(x.caps));
        assert forall|i: int| 0 <= i < ranked_caps(b1).len() implies ranked_caps(b1)[i]
            == ranked_caps(b).remove(j)[i] by {
            assert(ranked_caps(b1)[i] == b1[i].caps);
            if i < j {
                assert(b1[i] == b[i]);
                assert(ranked_caps(b)[i] == b[i].caps);
            } else {
                assert(b1[i] == b[i + 1]);
                assert(ranked_caps(b)[i + 1] == b[i + 1].caps);
            }
        }
        assert(ranked_caps(b1) =~= ranked_caps(b).remove(j));
        assert(ranked_caps(b).remove(j).to_multiset() == ranked_caps(b).to_multiset().remove(
            ranked_caps(b)[j],
        ));
        assert(ranked_caps(b)[j] == x.caps);
        assert(ranked_caps(b).to_multiset().count(x.caps) > 0) by {
            assert(ranked_caps(b).contains(ranked_caps(b)[j]));
        }
        assert(ranked_caps(b).to_multiset().remove(x.caps).insert(x.caps) =~= ranked_caps(
            b,
        ).to_multiset());
    }
}

/// Sorts ranked entries by non-increasing score, keeping exactly the same
/// entries.
fn sort_gpus_desc(input: Vec<GpuInfo>) -> (out: Vec<GpuInfo>)
    ensures
        out@.to_multiset() == input@.to_multiset(),
        sorted_desc(out@),
        out@.len() == input@.len(),
{
    broadcast use group_to_multiset_ensures;

    let ghost orig = input@;
    let mut src = input;
    let mut out: Vec<GpuInfo> = Vec::new();
    proof {
        assert(out@.to_multiset().add(src@.to_multiset()) =~= orig.to_multiset());
    }
    while src.len() > 0
        invariant
            out@.to_multiset().add(src@.to_multiset()) =~= orig.to_multiset(),
            out@.len() + src@.len() == orig.len(),
            sorted_desc(out@),
            forall|i: int, j: int|
                0 <= i < out@.len() && 0 <= j < src@.len() ==> #[trigger] out@[i].performance_score
                    >= #[trigger] src@[j].performance_score,
        decreases src@.len(),
    {
        let mut max_idx: usize = 0;
        let n = src.len();
        for k in 1..n
            invariant
                n == src@.len(),
                max_idx < k <= n,
                forall|j: int|
                    0 <= j < k ==> src@[max_idx as int].performance_score
                        >= #[trigger] src@[j].performance_score,
        {
            if src[k].performance_score > src[max_idx].performance_score {
                max_idx = k;
            }
        }
        let ghost pre_out = out@;
        let ghost pre_src = src@;
        let g = src.remove(max_idx);
        out.push(g);
        proof {
            broadcast use group_to_multiset_ensures;

            assert(pre_src.to_multiset().count(g) > 0) by {
                assert(pre_src[max_idx as int] == g);
                assert(pre_src.contains(g));
            }
            assert(out@ =~= pre_out.push(g));
            assert(pre_out.push(g).to_multiset() =~= pre_out.to_multiset().insert(g));
            assert(src@ =~= pre_src.remove(max_idx as int));
            assert(pre_src.remove(max_idx as int).to_multiset() =~= pre_src.to_multiset().remove(
                g,
            ));
            assert(out@.to_multiset().add(src@.to_multiset()) =~= pre_out.to_multiset().add(
                pre_src.to_multiset(),
            ));
        }
    }
    proof {
        assert(src@.to_multiset() =~= Multiset::empty());
        assert(out@.to_multiset() =~= orig.to_multiset());
    }
    out
}

} // verus!
