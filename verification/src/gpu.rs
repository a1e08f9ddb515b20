//! The choices made when the renderer sets up the GPU: which device and
//! queue families to use, and the swapchain's format, present mode, size
//! and image count. The values are Vulkan's numbers and flags, read by the
//! caller.
use vstd::prelude::*;

verus! {

/// Vulkan's number for the `B8G8R8A8_SRGB` format.
pub const FORMAT_B8G8R8A8_SRGB: i32 = 50;

/// Vulkan's number for the `SRGB_NONLINEAR` color space.
pub const COLOR_SPACE_SRGB_NONLINEAR: i32 = 0;

/// The kind of a physical device, as far as the choice goes.
#[derive(PartialEq, Eq, Structural, Clone, Copy, Debug)]
pub enum DeviceKind {
    Discrete,
    Integrated,
    Other,
}

/// How much a device kind is preferred.
pub open spec fn kind_score(k: DeviceKind) -> int {
    match k {
        DeviceKind::Discrete => 100,
        DeviceKind::Integrated => 50,
        DeviceKind::Other => 10,
    }
}

/// The device picked among the devices, each given by its kind when it has
/// the queue families needed and by `None` when it has not: one of those
/// that have them with the highest score, the first listed among equals;
/// `None` when no device has them.
pub open spec fn picked(devices: Seq<Option<DeviceKind>>) -> Option<int>
    decreases devices.len(),
{
    if devices.len() == 0 {
        None
    } else {
        let rest = picked(devices.drop_last());
        let i = devices.len() - 1;
        match devices.last() {
            None => rest,
            Some(k) => match rest {
                None => Some(i),
                Some(j) => if kind_score(k) > kind_score(devices[j]->0) {
                    Some(i)
                } else {
                    Some(j)
                },
            },
        }
    }
}

/// Picks the device to render with, as `picked` says.
pub fn pick_device(devices: &Vec<Option<DeviceKind>>) -> (r: Option<usize>)
    ensures
        match picked(devices@) {
            Some(i) => r == Some(i as usize),
            None => r is None,
        },
{
    let mut best: Option<usize> = None;
    let mut i: usize = 0;
    while i < devices.len()
        invariant
            i <= devices@.len(),
            match picked(devices@.take(i as int)) {
                Some(j) => best == Some(j as usize) && 0 <= j < i && devices@[j] is Some,
                None => best is None,
            },
            best matches Some(j) ==> j < i && devices@[j as int] is Some,
        decreases devices.len() - i,
    {
        proof {
            let t = devices@.take(i + 1);
            assert(t.drop_last() =~= devices@.take(i as int));
            assert(t.last() == devices@[i as int]);
            assert forall|j: int| 0 <= j < i implies t[j] == devices@[j] by {}
        }
        match devices[i] {
            None => {},
            Some(k) => {
                match best {
                    None => {
                        best = Some(i);
                    },
                    Some(j) => {
                        if score(k) > score(devices[j].unwrap()) {
                            best = Some(i);
                        }
                    },
                }
            },
        }
        i = i + 1;
    }
    assert(devices@.take(devices@.len() as int) =~= devices@);
    best
}

fn score(k: DeviceKind) -> (s: u32)
    ensures
        s == kind_score(k),
{
    match k {
        DeviceKind::Discrete => 100,
        DeviceKind::Integrated => 50,
        DeviceKind::Other => 10,
    }
}

/// The picked device has the queue families needed, and no device that has
/// them is preferred to it; a device listed before it is not even as good.
pub proof fn law_picked_is_best(devices: Seq<Option<DeviceKind>>)
    ensures
        picked(devices) is None <==> forall|j: int| 0 <= j < devices.len() ==> devices[j] is None,
        picked(devices) matches Some(i) ==> {
            &&& 0 <= i < devices.len()
            &&& devices[i] is Some
            &&& forall|j: int| 0 <= j < devices.len() && devices[j] is Some ==> kind_score(devices[j]->0)
                <= kind_score(devices[i]->0)
            &&& forall|j: int| 0 <= j < i && devices[j] is Some ==> kind_score(devices[j]->0) < kind_score(
                devices[i]->0,
            )
        },
    decreases devices.len(),
{
    if devices.len() > 0 {
        let p = devices.drop_last();
        law_picked_is_best(p);
        assert forall|j: int| 0 <= j < p.len() implies p[j] == devices[j] by {}
    }
}

/// The queue families found by walking a device's families in order, each
/// given as (can draw, can present to the window): the last family seen
/// that draws and the last that presents, the walk stopping as soon as it
/// has one of each.
pub open spec fn families_seen(fams: Seq<(bool, bool)>) -> (Option<int>, Option<int>)
    decreases fams.len(),
{
    if fams.len() == 0 {
        (None, None)
    } else {
        let prev = families_seen(fams.drop_last());
        if prev.0 is Some && prev.1 is Some {
            prev
        } else {
            let i = fams.len() - 1;
            (
                if fams.last().0 { Some(i) } else { prev.0 },
                if fams.last().1 { Some(i) } else { prev.1 },
            )
        }
    }
}

/// The drawing and presenting queue families of a device, as
/// `families_seen` says, when it has both.
pub fn find_queue_families(fams: &Vec<(bool, bool)>) -> (r: Option<(u32, u32)>)
    requires
        fams@.len() <= u32::MAX,
    ensures
        match families_seen(fams@) {
            (Some(g), Some(p)) => r == Some((g as u32, p as u32)),
            _ => r is None,
        },
{
    let mut graphics: Option<u32> = None;
    let mut present: Option<u32> = None;
    let mut i: usize = 0;
    while i < fams.len() && !(graphics.is_some() && present.is_some())
        invariant
            i <= fams@.len(),
            fams@.len() <= u32::MAX,
            ({
                let s = families_seen(fams@.take(i as int));
                &&& match s.0 {
                    Some(g) => graphics == Some(g as u32) && 0 <= g < i,
                    None => graphics is None,
                }
                &&& match s.1 {
                    Some(p) => present == Some(p as u32) && 0 <= p < i,
                    None => present is None,
                }
                &&& (s.0 is Some && s.1 is Some ==> families_seen(fams@) == s)
            }),
        decreases fams.len() - i,
    {
        proof {
            let t = fams@.take(i + 1);
            assert(t.drop_last() =~= fams@.take(i as int));
            assert(t.last() == fams@[i as int]);
        }
        if fams[i].0 {
            graphics = Some(i as u32);
        }
        if fams[i].1 {
            present = Some(i as u32);
        }
        i = i + 1;
        proof {
            if graphics.is_some() && present.is_some() {
                lemma_seen_stays(fams@, i as int);
            }
        }
    }
    proof {
        if i == fams@.len() {
            assert(fams@.take(i as int) =~= fams@);
        }
    }
    match (graphics, present) {
        (Some(g), Some(p)) => Some((g, p)),
        _ => None,
    }
}

/// Once the walk has one family of each, walking further changes nothing.
proof fn lemma_seen_stays(fams: Seq<(bool, bool)>, i: int)
    requires
        0 <= i <= fams.len(),
        families_seen(fams.take(i)).0 is Some,
        families_seen(fams.take(i)).1 is Some,
    ensures
        families_seen(fams) == families_seen(fams.take(i)),
    decreases fams.len() - i,
{
    if i < fams.len() {
        let t = fams.take(i + 1);
        assert(t.drop_last() =~= fams.take(i));
        lemma_seen_stays(fams, i + 1);
    } else {
        assert(fams.take(i) =~= fams);
    }
}

/// The swapchain's format: the first offered that is `B8G8R8A8_SRGB` in the
/// `SRGB_NONLINEAR` color space, or else the first offered.
pub open spec fn chosen_format(formats: Seq<(i32, i32)>) -> (i32, i32) {
    let wanted = (FORMAT_B8G8R8A8_SRGB, COLOR_SPACE_SRGB_NONLINEAR);
    if formats.contains(wanted) {
        wanted
    } else {
        formats[0]
    }
}

/// Chooses the swapchain's format among those offered, each a format and a
/// color space, as `chosen_format` says.
pub fn choose_format(formats: &Vec<(i32, i32)>) -> (r: (i32, i32))
    requires
        formats@.len() > 0,
    ensures
        r == chosen_format(formats@),
{
    let mut i: usize = 0;
    while i < formats.len()
        invariant
            i <= formats@.len(),
            forall|j: int| 0 <= j < i ==> formats@[j] != (FORMAT_B8G8R8A8_SRGB, COLOR_SPACE_SRGB_NONLINEAR),
        decreases formats.len() - i,
    {
        let f = formats[i];
        if f.0 == FORMAT_B8G8R8A8_SRGB && f.1 == COLOR_SPACE_SRGB_NONLINEAR {
            assert(formats@[i as int] == (FORMAT_B8G8R8A8_SRGB, COLOR_SPACE_SRGB_NONLINEAR));
            return f;
        }
        i = i + 1;
    }
    formats[0]
}

/// A way of presenting images, as far as the choice goes.
#[derive(PartialEq, Eq, Structural, Clone, Copy, Debug)]
pub enum PresentMode {
    Mailbox,
    Immediate,
    Fifo,
    Other,
}

/// The present mode: mailbox when offered, else immediate when offered,
/// else FIFO, which every device offers.
pub open spec fn chosen_present_mode(modes: Seq<PresentMode>) -> PresentMode {
    if modes.contains(PresentMode::Mailbox) {
        PresentMode::Mailbox
    } else if modes.contains(PresentMode::Immediate) {
        PresentMode::Immediate
    } else {
        PresentMode::Fifo
    }
}

fn offers(modes: &Vec<PresentMode>, m: PresentMode) -> (b: bool)
    ensures
        b == modes@.contains(m),
{
    let mut i: usize = 0;
    while i < modes.len()
        invariant
            i <= modes@.len(),
            forall|j: int| 0 <= j < i ==> modes@[j] != m,
        decreases modes.len() - i,
    {
        if modes[i] == m {
            return true;
        }
        i = i + 1;
    }
    false
}

/// Chooses the present mode among those offered, as `chosen_present_mode` says.
pub fn choose_present_mode(modes: &Vec<PresentMode>) -> (r: PresentMode)
    ensures
        r == chosen_present_mode(modes@),
{
    if offers(modes, PresentMode::Mailbox) {
        PresentMode::Mailbox
    } else if offers(modes, PresentMode::Immediate) {
        PresentMode::Immediate
    } else {
        PresentMode::Fifo
    }
}

/// `v` brought within `[lo, hi]`.
pub open spec fn clamped(v: u32, lo: u32, hi: u32) -> u32 {
    if v < lo {
        lo
    } else if v > hi {
        hi
    } else {
        v
    }
}

/// The swapchain's size: the window's size brought within the smallest and
/// largest the surface allows.
pub fn swapchain_extent(width: u32, height: u32, min: (u32, u32), max: (u32, u32)) -> (r: (u32, u32))
    requires
        min.0 <= max.0,
        min.1 <= max.1,
    ensures
        r == (clamped(width, min.0, max.0), clamped(height, min.1, max.1)),
{
    let w = if width < min.0 { min.0 } else if width > max.0 { max.0 } else { width };
    let h = if height < min.1 { min.1 } else if height > max.1 { max.1 } else { height };
    (w, h)
}

/// How many swapchain images to ask for: one more than the least the surface
/// needs, but no more than its most (0 meaning no limit).
pub open spec fn image_count_for(min_count: u32, max_count: u32) -> int {
    let want = min_count + 1;
    if max_count != 0 && max_count < want {
        max_count as int
    } else {
        want
    }
}

/// How many swapchain images to ask for, as `image_count_for` says.
pub fn swapchain_image_count(min_count: u32, max_count: u32) -> (r: u32)
    requires
        min_count < u32::MAX,
    ensures
        r == image_count_for(min_count, max_count),
{
    let want = min_count + 1;
    let limit = if max_count == 0 { u32::MAX } else { max_count };
    if limit < want {
        limit
    } else {
        want
    }
}

/// The queue families the swapchain's images are shared between: none when
/// one family draws and presents, both when they differ.
pub fn sharing_families(graphics: u32, present: u32) -> (r: Vec<u32>)
    ensures
        graphics == present ==> r@ == Seq::<u32>::empty(),
        graphics != present ==> r@ == seq![graphics, present],
{
    let mut r: Vec<u32> = Vec::new();
    if graphics != present {
        r.push(graphics);
        r.push(present);
        assert(r@ =~= seq![graphics, present]);
    }
    r
}

} // verus!
