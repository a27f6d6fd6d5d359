//! Settings of a logical device, and the choice of the device and queue family it runs on.
use vstd::prelude::*;

verus! {

/// How the device runs frames: how many may be in flight at once.
#[derive(PartialEq, Eq, Structural, Clone, Copy, Debug)]
pub struct DeviceSettings {
    pub frames_in_flight: usize,
}

/// Queue family `family` of device `device` supports graphics and presentation to the
/// surface (`families[d][f]` holds the two flags of family `f` of device `d`).
pub open spec fn family_fits(families: Seq<Vec<(bool, bool)>>, device: int, family: int) -> bool {
    &&& 0 <= device < families.len()
    &&& 0 <= family < families[device]@.len()
    &&& families[device]@[family].0
    &&& families[device]@[family].1
}

/// The first device, and its first queue family, that supports both graphics and
/// presentation to the surface; `None` when no family of any device does.
pub fn pick_graphics_present_family(families: &[Vec<(bool, bool)>]) -> (pick: Option<(usize, usize)>)
    ensures
        match pick {
            Some((d, f)) => {
                &&& family_fits(families@, d as int, f as int)
                &&& forall|e: int, g: int| #![trigger family_fits(families@, e, g)]
                    family_fits(families@, e, g) ==> d < e || (d == e && f <= g)
            },
            None => forall|e: int, g: int| !#[trigger] family_fits(families@, e, g),
        },
{
    let mut d: usize = 0;
    while d < families.len()
        invariant
            d <= families@.len(),
            forall|e: int, g: int| #![trigger family_fits(families@, e, g)] e < d ==> !family_fits(families@, e, g),
        decreases families@.len() - d,
    {
        let device = &families[d];
        let mut f: usize = 0;
        while f < device.len()
            invariant
                d < families@.len(),
                *device == families@[d as int],
                f <= device@.len(),
                forall|e: int, g: int| #![trigger family_fits(families@, e, g)] e < d ==> !family_fits(families@, e, g),
                forall|g: int| #![trigger family_fits(families@, d as int, g)] g < f ==> !family_fits(families@, d as int, g),
            decreases device@.len() - f,
        {
            let (graphics, present) = device[f];
            if graphics && present {
                assert(family_fits(families@, d as int, f as int));
                return Some((d, f));
            }
            f = f + 1;
        }
        d = d + 1;
    }
    None
}

} // verus!
