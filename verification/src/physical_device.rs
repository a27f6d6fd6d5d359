//! What the renderer learns about a physical device: vendor and type, a readable driver
//! version, queue families, memory sizes and extension support, decoded from the raw
//! values Vulkan reports.
use vstd::prelude::*;

verus! {

// ---------------------------------------------------------------------------------------
// Raw Vulkan values

/// `VK_QUEUE_GRAPHICS_BIT`
pub const QUEUE_GRAPHICS: u32 = 0x1;
/// `VK_QUEUE_COMPUTE_BIT`
pub const QUEUE_COMPUTE: u32 = 0x2;
/// `VK_QUEUE_TRANSFER_BIT`
pub const QUEUE_TRANSFER: u32 = 0x4;
/// `VK_MEMORY_HEAP_DEVICE_LOCAL_BIT`
pub const MEMORY_HEAP_DEVICE_LOCAL: u32 = 0x1;
/// `VK_PHYSICAL_DEVICE_TYPE_INTEGRATED_GPU`
pub const PHYSICAL_DEVICE_TYPE_INTEGRATED_GPU: i32 = 1;
/// `VK_PHYSICAL_DEVICE_TYPE_DISCRETE_GPU`
pub const PHYSICAL_DEVICE_TYPE_DISCRETE_GPU: i32 = 2;

/// All bits of `flags` are set in `bits`.
pub open spec fn flags_contain(bits: u32, flags: u32) -> bool {
    bits & flags == flags
}

/// Some bit of `flags` is set in `bits`.
pub open spec fn flags_intersect(bits: u32, flags: u32) -> bool {
    bits & flags != 0
}

/// The bits have every flag of `contains` and none of `exclude`.
pub open spec fn flags_select(bits: u32, contains: u32, exclude: u32) -> bool {
    flags_contain(bits, contains) && !flags_intersect(bits, exclude)
}

// ---------------------------------------------------------------------------------------
// Strings reported by the driver

/// The bytes before the first NUL.
pub open spec fn c_str_bytes(bytes: Seq<u8>) -> Seq<u8> {
    bytes.take(first_nul(bytes))
}

/// The index of the first NUL byte (the length when there is none).
pub open spec fn first_nul(bytes: Seq<u8>) -> int
    decreases bytes.len(),
{
    if bytes.len() == 0 {
        0
    } else if bytes[0] == 0 {
        0
    } else {
        1 + first_nul(bytes.drop_first())
    }
}

proof fn lemma_first_nul(bytes: Seq<u8>)
    ensures
        0 <= first_nul(bytes) <= bytes.len(),
        forall|i: int| 0 <= i < first_nul(bytes) ==> bytes[i] != 0,
        first_nul(bytes) < bytes.len() ==> bytes[first_nul(bytes)] == 0,
    decreases bytes.len(),
{
    if bytes.len() > 0 && bytes[0] != 0 {
        lemma_first_nul(bytes.drop_first());
        assert forall|i: int| 0 <= i < first_nul(bytes) implies bytes[i] != 0 by {
            if i > 0 {
                assert(bytes[i] == bytes.drop_first()[i - 1]);
            }
        }
    }
}

/// The text that `String::from_utf8_lossy` makes of the bytes: invalid sequences become
/// U+FFFD.
pub uninterp spec fn utf8_lossy(bytes: Seq<u8>) -> Seq<char>;

/// Every byte is ASCII.
pub open spec fn is_ascii_bytes(bytes: Seq<u8>) -> bool {
    forall|i: int| 0 <= i < bytes.len() ==> bytes[i] < 128
}

/// The characters of ASCII bytes.
pub open spec fn ascii_chars(bytes: Seq<u8>) -> Seq<char> {
    bytes.map_values(|b: u8| b as char)
}

/// Decodes UTF-8 with `String::from_utf8_lossy`.
///
/// The result is `utf8_lossy` of the bytes. The documentation states that valid UTF-8 is
/// returned as it is; the contract states this for ASCII, where each byte is one
/// character. How invalid sequences are replaced is left to the name.
#[verifier::external_body]
fn from_utf8_lossy(bytes: &[u8]) -> (s: String)
    ensures
        s@ == utf8_lossy(bytes@),
        is_ascii_bytes(bytes@) ==> s@ == ascii_chars(bytes@),
{
    String::from_utf8_lossy(bytes).into_owned()
}

/// The text of a NUL-terminated string from a fixed-size Vulkan array.
pub fn c_str_to_string(c_str: &[u8]) -> (s: String)
    requires
        exists|i: int| 0 <= i < c_str@.len() && c_str@[i] == 0,
    ensures
        s@ == utf8_lossy(c_str_bytes(c_str@)),
        is_ascii_bytes(c_str_bytes(c_str@)) ==> s@ == ascii_chars(c_str_bytes(c_str@)),
{
    proof {
        lemma_first_nul(c_str@);
    }
    let mut n: usize = 0;
    while n < c_str.len() && c_str[n] != 0
        invariant
            n <= c_str@.len(),
            forall|i: int| 0 <= i < n ==> c_str@[i] != 0,
            0 <= first_nul(c_str@) <= c_str@.len(),
            forall|i: int| 0 <= i < first_nul(c_str@) ==> c_str@[i] != 0,
            first_nul(c_str@) < c_str@.len() ==> c_str@[first_nul(c_str@)] == 0,
        decreases c_str@.len() - n,
    {
        n = n + 1;
    }
    assert(n == first_nul(c_str@));
    let prefix = slice_prefix(c_str, n);
    from_utf8_lossy(prefix.as_slice())
}

/// The first `n` bytes.
fn slice_prefix(bytes: &[u8], n: usize) -> (prefix: Vec<u8>)
    requires
        n <= bytes@.len(),
    ensures
        prefix@ == bytes@.take(n as int),
{
    let mut prefix: Vec<u8> = Vec::new();
    let mut i: usize = 0;
    while i < n
        invariant
            i <= n <= bytes@.len(),
            prefix@ == bytes@.take(i as int),
        decreases n - i,
    {
        prefix.push(bytes[i]);
        i = i + 1;
        assert(prefix@ =~= bytes@.take(i as int));
    }
    prefix
}

// ---------------------------------------------------------------------------------------
// Queue families, memory heaps, extensions

/// The index of the first queue family whose flags have every flag of `contains_flags`
/// and none of `exclude_flags` (the index as `u32`).
pub fn find_queue_index(queue_family_flags: &[u32], contains_flags: u32, exclude_flags: u32) -> (index: Option<u32>)
    ensures
        match index {
            Some(i) => exists|k: int|
                0 <= k < queue_family_flags@.len() && i == k as u32
                    && flags_select(queue_family_flags@[k], contains_flags, exclude_flags)
                    && forall|m: int| 0 <= m < k ==> !flags_select(#[trigger] queue_family_flags@[m], contains_flags, exclude_flags),
            None => forall|m: int|
                0 <= m < queue_family_flags@.len() ==> !flags_select(#[trigger] queue_family_flags@[m], contains_flags, exclude_flags),
        },
{
    let mut i: usize = 0;
    while i < queue_family_flags.len()
        invariant
            i <= queue_family_flags@.len(),
            forall|m: int| 0 <= m < i ==> !flags_select(#[trigger] queue_family_flags@[m], contains_flags, exclude_flags),
        decreases queue_family_flags@.len() - i,
    {
        let flags = queue_family_flags[i];
        if flags & contains_flags == contains_flags && flags & exclude_flags == 0 {
            return Some(i as u32);
        }
        i = i + 1;
    }
    None
}

/// A memory heap: its size in bytes and its `VkMemoryHeapFlags`.
#[derive(PartialEq, Eq, Structural, Clone, Copy, Debug)]
pub struct MemoryHeap {
    pub size: u64,
    pub flags: u32,
}

/// The total size of the heaps whose flags have every flag of `contains` and none of
/// `exclude`.
pub open spec fn selected_heap_size(heaps: Seq<MemoryHeap>, contains: u32, exclude: u32) -> int
    decreases heaps.len(),
{
    if heaps.len() == 0 {
        0
    } else {
        let h = heaps.last();
        selected_heap_size(heaps.drop_last(), contains, exclude) + if flags_select(h.flags, contains, exclude) {
            h.size as int
        } else {
            0
        }
    }
}

proof fn lemma_selected_heap_size_prefix(heaps: Seq<MemoryHeap>, contains: u32, exclude: u32, n: int)
    requires
        0 <= n <= heaps.len(),
    ensures
        selected_heap_size(heaps.take(n), contains, exclude) <= selected_heap_size(heaps, contains, exclude),
    decreases heaps.len() - n,
{
    if n < heaps.len() {
        lemma_selected_heap_size_prefix(heaps, contains, exclude, n + 1);
        assert(heaps.take(n + 1).drop_last() =~= heaps.take(n));
    } else {
        assert(heaps.take(n) =~= heaps);
    }
}

/// The total size in bytes of the heaps whose flags have every flag of `contains_flags`
/// and none of `exclude_flags`.
pub fn sum_memory_heaps(memory_heaps: &[MemoryHeap], contains_flags: u32, exclude_flags: u32) -> (total: usize)
    requires
        selected_heap_size(memory_heaps@, contains_flags, exclude_flags) <= usize::MAX,
    ensures
        total == selected_heap_size(memory_heaps@, contains_flags, exclude_flags),
{
    let mut total: usize = 0;
    let mut i: usize = 0;
    while i < memory_heaps.len()
        invariant
            i <= memory_heaps@.len(),
            selected_heap_size(memory_heaps@, contains_flags, exclude_flags) <= usize::MAX,
            total == selected_heap_size(memory_heaps@.take(i as int), contains_flags, exclude_flags),
        decreases memory_heaps@.len() - i,
    {
        let heap = memory_heaps[i];
        assert(memory_heaps@.take(i + 1).drop_last() =~= memory_heaps@.take(i as int));
        proof {
            lemma_selected_heap_size_prefix(memory_heaps@, contains_flags, exclude_flags, i + 1);
        }
        if heap.flags & contains_flags == contains_flags && heap.flags & exclude_flags == 0 {
            total = total + heap.size as usize;
        }
        i = i + 1;
    }
    assert(memory_heaps@.take(i as int) =~= memory_heaps@);
    total
}

/// Byte-wise equality of two slices.
fn bytes_equal(a: &[u8], b: &[u8]) -> (eq: bool)
    ensures
        eq == (a@ == b@),
{
    if a.len() != b.len() {
        return false;
    }
    let mut i: usize = 0;
    while i < a.len()
        invariant
            i <= a@.len() == b@.len(),
            forall|k: int| 0 <= k < i ==> a@[k] == b@[k],
        decreases a@.len() - i,
    {
        if a[i] != b[i] {
            return false;
        }
        i = i + 1;
    }
    assert(a@ =~= b@);
    true
}

/// Whether an extension of the list has the name (extension names as the bytes before
/// their NUL).
pub fn supports_extension(extension_list: &[Vec<u8>], name: &[u8]) -> (supported: bool)
    ensures
        supported == exists|i: int| 0 <= i < extension_list@.len() && (#[trigger] extension_list@[i])@ == name@,
{
    let mut i: usize = 0;
    while i < extension_list.len()
        invariant
            i <= extension_list@.len(),
            forall|k: int| 0 <= k < i ==> (#[trigger] extension_list@[k])@ != name@,
        decreases extension_list@.len() - i,
    {
        if bytes_equal(extension_list[i].as_slice(), name) {
            return true;
        }
        i = i + 1;
    }
    false
}

/// The bytes of an ASCII text.
pub open spec fn ascii_bytes(text: Seq<char>) -> Seq<u8> {
    text.map_values(|c: char| c as u8)
}

/// The name of `VK_KHR_acceleration_structure`, from
/// `ash::extensions::khr::AccelerationStructure::name`, without its NUL. The crate's
/// source builds that name from the literal `b"VK_KHR_acceleration_structure\0"`.
#[verifier::external_body]
fn acceleration_structure_name() -> (name: Vec<u8>)
    ensures
        name@ == ascii_bytes("VK_KHR_acceleration_structure"@),
{
    ash::extensions::khr::AccelerationStructure::name().to_bytes().to_vec()
}

/// The name of `VK_KHR_ray_tracing_pipeline`, from
/// `ash::extensions::khr::RayTracingPipeline::name`, without its NUL. The crate's source
/// builds that name from the literal `b"VK_KHR_ray_tracing_pipeline\0"`.
#[verifier::external_body]
fn ray_tracing_pipeline_name() -> (name: Vec<u8>)
    ensures
        name@ == ascii_bytes("VK_KHR_ray_tracing_pipeline"@),
{
    ash::extensions::khr::RayTracingPipeline::name().to_bytes().to_vec()
}

/// The name of `VK_EXT_mesh_shader`, from `ash::extensions::ext::MeshShader::name`,
/// without its NUL. The crate's source builds that name from the literal
/// `b"VK_EXT_mesh_shader\0"`.
#[verifier::external_body]
fn mesh_shader_name() -> (name: Vec<u8>)
    ensures
        name@ == ascii_bytes("VK_EXT_mesh_shader"@),
{
    ash::extensions::ext::MeshShader::name().to_bytes().to_vec()
}

/// The list has an extension of that name.
pub open spec fn has_extension(list: Seq<Vec<u8>>, name: Seq<u8>) -> bool {
    exists|i: int| 0 <= i < list.len() && (#[trigger] list[i])@ == name
}

// ---------------------------------------------------------------------------------------
// Vendor, device type, driver version

#[derive(PartialEq, Eq, Structural, Clone, Copy, Debug, PartialOrd, Ord)]
pub enum PhysicalDeviceVendor {
    Amd,
    Arm,
    ImgTec,
    Intel,
    Nvidia,
    Qualcomm,
    Broadcom,
    Unknown { vendor_id: u32 },
}

impl PhysicalDeviceVendor {
    pub open spec fn spec_from_vulkan(vendor_id: u32) -> PhysicalDeviceVendor {
        if vendor_id == 0x1002 {
            PhysicalDeviceVendor::Amd
        } else if vendor_id == 0x10de {
            PhysicalDeviceVendor::Nvidia
        } else if vendor_id == 0x8086 {
            PhysicalDeviceVendor::Intel
        } else if vendor_id == 0x1010 {
            PhysicalDeviceVendor::ImgTec
        } else if vendor_id == 0x13b5 {
            PhysicalDeviceVendor::Arm
        } else if vendor_id == 0x5132 {
            PhysicalDeviceVendor::Qualcomm
        } else if vendor_id == 0x14e4 {
            PhysicalDeviceVendor::Broadcom
        } else {
            PhysicalDeviceVendor::Unknown { vendor_id }
        }
    }

    /// The vendor of a PCI vendor id.
    pub fn from_vulkan(vendor_id: u32) -> (vendor: Self)
        ensures
            vendor == Self::spec_from_vulkan(vendor_id),
    {
        match vendor_id {
            0x1002 => PhysicalDeviceVendor::Amd,
            0x10DE => PhysicalDeviceVendor::Nvidia,
            0x8086 => PhysicalDeviceVendor::Intel,
            0x1010 => PhysicalDeviceVendor::ImgTec,
            0x13B5 => PhysicalDeviceVendor::Arm,
            0x5132 => PhysicalDeviceVendor::Qualcomm,
            0x14e4 => PhysicalDeviceVendor::Broadcom,
            vendor_id => PhysicalDeviceVendor::Unknown { vendor_id },
        }
    }
}

#[derive(PartialEq, Eq, Structural, Clone, Copy, Debug, PartialOrd, Ord)]
pub enum PhysicalDeviceType {
    Integrated,
    Discrete,
    Unknown,
}

impl PhysicalDeviceType {
    /// The type of a raw `VkPhysicalDeviceType`; only integrated and discrete GPUs are told
    /// apart.
    pub fn from_vulkan(device_type: i32) -> (t: Self)
        ensures
            t == if device_type == PHYSICAL_DEVICE_TYPE_DISCRETE_GPU {
                PhysicalDeviceType::Discrete
            } else if device_type == PHYSICAL_DEVICE_TYPE_INTEGRATED_GPU {
                PhysicalDeviceType::Integrated
            } else {
                PhysicalDeviceType::Unknown
            },
    {
        if device_type == PHYSICAL_DEVICE_TYPE_DISCRETE_GPU {
            PhysicalDeviceType::Discrete
        } else if device_type == PHYSICAL_DEVICE_TYPE_INTEGRATED_GPU {
            PhysicalDeviceType::Integrated
        } else {
            PhysicalDeviceType::Unknown
        }
    }
}

/// The decimal digit of `d` (for `d < 10`).
pub open spec fn digit_char(d: nat) -> char {
    if d == 0 { '0' }
    else if d == 1 { '1' }
    else if d == 2 { '2' }
    else if d == 3 { '3' }
    else if d == 4 { '4' }
    else if d == 5 { '5' }
    else if d == 6 { '6' }
    else if d == 7 { '7' }
    else if d == 8 { '8' }
    else { '9' }
}

/// The decimal text of `n`, without leading zeros.
pub open spec fn decimal(n: nat) -> Seq<char>
    decreases n,
{
    if n < 10 {
        seq![digit_char(n)]
    } else {
        decimal(n / 10).push(digit_char(n % 10))
    }
}

/// The text of one decimal digit.
fn digit_str(d: u32) -> (s: &'static str)
    requires
        d < 10,
    ensures
        s@ == seq![digit_char(d as nat)],
{
    proof {
        reveal_strlit("0");
        reveal_strlit("1");
        reveal_strlit("2");
        reveal_strlit("3");
        reveal_strlit("4");
        reveal_strlit("5");
        reveal_strlit("6");
        reveal_strlit("7");
        reveal_strlit("8");
        reveal_strlit("9");
    }
    if d == 0 { "0" }
    else if d == 1 { "1" }
    else if d == 2 { "2" }
    else if d == 3 { "3" }
    else if d == 4 { "4" }
    else if d == 5 { "5" }
    else if d == 6 { "6" }
    else if d == 7 { "7" }
    else if d == 8 { "8" }
    else { "9" }
}

/// Appends the decimal text of `n`.
fn push_decimal(s: &mut String, n: u32)
    ensures
        final(s)@ == old(s)@ + decimal(n as nat),
    decreases n,
{
    if n >= 10 {
        push_decimal(s, n / 10);
    }
    s.append(digit_str(n % 10));
    assert(final(s)@ =~= old(s)@ + decimal(n as nat));
}

/// Appends a dot.
fn push_dot(s: &mut String)
    ensures
        final(s)@ == old(s)@.push('.'),
{
    proof {
        reveal_strlit(".");
    }
    s.append(".");
    assert(final(s)@ =~= old(s)@.push('.'));
}

/// Decimal numbers joined by dots.
pub open spec fn dotted(parts: Seq<nat>) -> Seq<char>
    decreases parts.len(),
{
    if parts.len() == 0 {
        Seq::empty()
    } else if parts.len() == 1 {
        decimal(parts[0])
    } else {
        dotted(parts.drop_last()).push('.') + decimal(parts.last())
    }
}

/// The numbers that make up the readable driver version of a vendor; Intel's drivers on
/// Windows use their own notation, on other systems the Vulkan one.
pub open spec fn driver_version_parts(driver_version: u32, vendor: PhysicalDeviceVendor, windows: bool) -> Seq<nat> {
    match vendor {
        PhysicalDeviceVendor::Intel if windows => seq![
            (driver_version >> 14u32) as nat,
            (driver_version & 0x3fffu32) as nat,
        ],
        PhysicalDeviceVendor::Nvidia => seq![
            ((driver_version >> 22u32) & 0x3ffu32) as nat,
            ((driver_version >> 14u32) & 0xffu32) as nat,
            ((driver_version >> 6u32) & 0xffu32) as nat,
            (driver_version & 0x3fu32) as nat,
        ],
        PhysicalDeviceVendor::Broadcom => seq![
            (driver_version / 10000) as nat,
            ((driver_version % 10000) / 100) as nat,
        ],
        PhysicalDeviceVendor::ImgTec => if driver_version >= 500_000_000 {
            seq![0nat, 0nat, driver_version as nat]
        } else {
            seq![driver_version as nat]
        },
        _ => seq![
            (driver_version >> 22u32) as nat,
            ((driver_version >> 12u32) & 0x3ffu32) as nat,
            (driver_version & 0xfffu32) as nat,
        ],
    }
}

/// The readable driver version takes the packed value apart without losing or inventing
/// anything: NVIDIA's 10/8/8/6-bit fields, the Vulkan 10/10/12-bit fields (for every vendor
/// without a notation of its own, and Intel off Windows) and Intel's Windows 18/14-bit
/// fields each fit their widths and put back together give the packed value; Broadcom's
/// are the decimal groups above the last two digits; ImgTec's made-up versions from
/// 500,000,000 on are set apart behind two zeros, the others given whole.
pub proof fn lemma_driver_version_parts_reassemble(driver_version: u32, vendor: PhysicalDeviceVendor, windows: bool)
    ensures
        ({
            let p = driver_version_parts(driver_version, vendor, windows);
            &&& vendor is Nvidia ==> p.len() == 4 && p[0] < 1024 && p[1] < 256 && p[2] < 256 && p[3] < 64
                && p[0] * 0x40_0000 + p[1] * 0x4000 + p[2] * 0x40 + p[3] == driver_version
            &&& vendor is Intel && windows ==> p.len() == 2 && p[1] < 0x4000 && p[0] * 0x4000 + p[1] == driver_version
            &&& !(vendor is Nvidia) && !(vendor is Broadcom) && !(vendor is ImgTec) && !(vendor is Intel && windows)
                ==> p.len() == 3 && p[0] < 1024 && p[1] < 1024 && p[2] < 4096 && p[0] * 0x40_0000 + p[1] * 0x1000 + p[2]
                == driver_version
            &&& vendor is Broadcom ==> p.len() == 2 && p[1] < 100 && p[0] * 10000 + p[1] * 100 + driver_version % 100
                == driver_version
            &&& vendor is ImgTec ==> if driver_version >= 500_000_000 {
                p == seq![0nat, 0nat, driver_version as nat]
            } else {
                p == seq![driver_version as nat]
            }
        }),
{
    let v = driver_version;
    assert(((v >> 22u32) & 0x3ffu32) < 1024 && ((v >> 14u32) & 0xffu32) < 256 && ((v >> 6u32) & 0xffu32) < 256 && (v
        & 0x3fu32) < 64 && ((v >> 22u32) & 0x3ffu32) * 0x40_0000 + ((v >> 14u32) & 0xffu32) * 0x4000 + ((v >> 6u32)
        & 0xffu32) * 0x40 + (v & 0x3fu32) == v) by (bit_vector);
    assert((v >> 14u32) * 0x4000 + (v & 0x3fffu32) == v && (v & 0x3fffu32) < 0x4000) by (bit_vector);
    assert((v >> 22u32) < 1024 && ((v >> 12u32) & 0x3ffu32) < 1024 && (v & 0xfffu32) < 4096 && (v >> 22u32) * 0x40_0000
        + ((v >> 12u32) & 0x3ffu32) * 0x1000 + (v & 0xfffu32) == v) by (bit_vector);
    assert((v / 10000) * 10000 + ((v % 10000) / 100) * 100 + v % 100 == v && (v % 10000) / 100 < 100) by (nonlinear_arith);
}

/// Appends the numbers joined by dots.
fn push_dotted(s: &mut String, parts: &Vec<u32>)
    requires
        parts@.len() > 0,
    ensures
        final(s)@ == old(s)@ + dotted(parts@.map_values(|p: u32| p as nat)),
{
    let ghost nats = parts@.map_values(|p: u32| p as nat);
    push_decimal(s, parts[0]);
    assert(nats.take(1) =~= seq![nats[0]]);
    let mut i: usize = 1;
    while i < parts.len()
        invariant
            1 <= i <= parts@.len(),
            nats == parts@.map_values(|p: u32| p as nat),
            s@ == old(s)@ + dotted(nats.take(i as int)),
        decreases parts@.len() - i,
    {
        push_dot(s);
        push_decimal(s, parts[i]);
        i = i + 1;
        assert(nats.take(i as int).drop_last() =~= nats.take(i - 1));
        assert(s@ =~= old(s)@ + dotted(nats.take(i as int)));
    }
    assert(nats.take(i as int) =~= nats);
}

/// The driver version in the vendor's own notation (the Vulkan version layout for vendors
/// without one); `windows` tells whether the driver runs on Windows, where Intel's
/// notation differs.
pub fn get_driver_version(driver_version: u32, vendor: PhysicalDeviceVendor, windows: bool) -> (version: String)
    ensures
        version@ == dotted(driver_version_parts(driver_version, vendor, windows)),
{
    let mut parts: Vec<u32> = Vec::new();
    match vendor {
        PhysicalDeviceVendor::Intel if windows => {
            parts.push(driver_version >> 14);
            parts.push(driver_version & 0x3fff);
        },
        PhysicalDeviceVendor::Nvidia => {
            parts.push((driver_version >> 22) & 0x3ff);
            parts.push((driver_version >> 14) & 0x0ff);
            parts.push((driver_version >> 6) & 0x0ff);
            parts.push(driver_version & 0x003f);
        },
        PhysicalDeviceVendor::Broadcom => {
            parts.push(driver_version / 10_000);
            parts.push((driver_version % 10_000) / 100);
        },
        PhysicalDeviceVendor::ImgTec => {
            if driver_version >= 500_000_000 {
                parts.push(0);
                parts.push(0);
            }
            parts.push(driver_version);
        },
        _ => {
            parts.push(driver_version >> 22);
            parts.push((driver_version >> 12) & 0x3ff);
            parts.push(driver_version & 0xfff);
        },
    }
    assert(parts@.map_values(|p: u32| p as nat) =~= driver_version_parts(driver_version, vendor, windows));
    let mut version = String::new();
    push_dotted(&mut version, &parts);
    assert(version@ =~= dotted(driver_version_parts(driver_version, vendor, windows)));
    version
}

// ---------------------------------------------------------------------------------------
// Device information

#[derive(PartialEq, Eq, Clone, Debug)]
pub struct PhysicalDeviceInfo {
    pub name: String,
    pub device_id: u32,
    /// Variant, major, minor and patch of the supported Vulkan version.
    pub api_version: [u32; 4],
    pub vendor: PhysicalDeviceVendor,
    pub device_type: PhysicalDeviceType,
}

/// Variant, major, minor and patch of a packed Vulkan version (`VK_API_VERSION_VARIANT`,
/// `_MAJOR`, `_MINOR`, `_PATCH`).
pub open spec fn api_version_parts(v: u32) -> [u32; 4] {
    [v >> 29u32, (v >> 22u32) & 0x7fu32, (v >> 12u32) & 0x3ffu32, v & 0xfffu32]
}

impl PhysicalDeviceInfo {
    /// The information of a device from its `VkPhysicalDeviceProperties`: its name (the
    /// NUL-terminated array), id, packed API version, PCI vendor id and raw device type.
    pub fn from_properties(
        device_name: &[u8],
        device_id: u32,
        api_version: u32,
        vendor_id: u32,
        device_type: i32,
    ) -> (info: Self)
        requires
            exists|i: int| 0 <= i < device_name@.len() && device_name@[i] == 0,
        ensures
            info.name@ == utf8_lossy(c_str_bytes(device_name@)),
            info.device_id == device_id,
            info.api_version == api_version_parts(api_version),
            info.vendor == PhysicalDeviceVendor::spec_from_vulkan(vendor_id),
            info.device_type == if device_type == PHYSICAL_DEVICE_TYPE_DISCRETE_GPU {
                PhysicalDeviceType::Discrete
            } else if device_type == PHYSICAL_DEVICE_TYPE_INTEGRATED_GPU {
                PhysicalDeviceType::Integrated
            } else {
                PhysicalDeviceType::Unknown
            },
    {
        PhysicalDeviceInfo {
            name: c_str_to_string(device_name),
            device_id,
            api_version: [api_version >> 29, (api_version >> 22) & 0x7f, (api_version >> 12) & 0x3ff, api_version & 0xfff],
            vendor: PhysicalDeviceVendor::from_vulkan(vendor_id),
            device_type: PhysicalDeviceType::from_vulkan(device_type),
        }
    }
}

#[derive(PartialEq, Eq, Clone, Debug)]
pub struct PhysicalDeviceDriverInfo {
    pub id: String,
    pub name: String,
    pub info: String,
    pub version: String,
}

impl PhysicalDeviceDriverInfo {
    /// The driver information from `VkPhysicalDeviceDriverProperties`: the driver id's name,
    /// the NUL-terminated name and info arrays, and the packed driver version of the vendor
    /// (`windows`: whether the driver runs on Windows).
    pub fn from_properties(
        id: String,
        driver_name: &[u8],
        driver_info: &[u8],
        driver_version: u32,
        vendor: PhysicalDeviceVendor,
        windows: bool,
    ) -> (driver: Self)
        requires
            exists|i: int| 0 <= i < driver_name@.len() && driver_name@[i] == 0,
            exists|i: int| 0 <= i < driver_info@.len() && driver_info@[i] == 0,
        ensures
            driver.id == id,
            driver.name@ == utf8_lossy(c_str_bytes(driver_name@)),
            driver.info@ == utf8_lossy(c_str_bytes(driver_info@)),
            driver.version@ == dotted(driver_version_parts(driver_version, vendor, windows)),
    {
        PhysicalDeviceDriverInfo {
            id,
            name: c_str_to_string(driver_name),
            info: c_str_to_string(driver_info),
            version: get_driver_version(driver_version, vendor, windows),
        }
    }
}

#[derive(PartialEq, Eq, Structural, Clone, Copy, Debug)]
pub struct PhysicalDeviceMemoryInfo {
    pub device_local_bytes: usize,
    pub host_visible_bytes: usize,
}

impl PhysicalDeviceMemoryInfo {
    /// Device-local bytes: the heaps flagged device-local; host-visible bytes: the others.
    pub fn from_heaps(memory_heaps: &[MemoryHeap]) -> (memory: Self)
        requires
            selected_heap_size(memory_heaps@, MEMORY_HEAP_DEVICE_LOCAL, 0) <= usize::MAX,
            selected_heap_size(memory_heaps@, 0, MEMORY_HEAP_DEVICE_LOCAL) <= usize::MAX,
        ensures
            memory.device_local_bytes == selected_heap_size(memory_heaps@, MEMORY_HEAP_DEVICE_LOCAL, 0),
            memory.host_visible_bytes == selected_heap_size(memory_heaps@, 0, MEMORY_HEAP_DEVICE_LOCAL),
    {
        PhysicalDeviceMemoryInfo {
            device_local_bytes: sum_memory_heaps(memory_heaps, MEMORY_HEAP_DEVICE_LOCAL, 0),
            host_visible_bytes: sum_memory_heaps(memory_heaps, 0, MEMORY_HEAP_DEVICE_LOCAL),
        }
    }
}

/// The queue families the renderer uses: one that does everything, and async compute and
/// transfer families that do not do graphics (nor compute, for transfer).
#[derive(PartialEq, Eq, Structural, Clone, Copy, Debug)]
pub struct PhysicalDeviceQueueInfo {
    pub graphics_queue_family_index: Option<u32>,
    pub compute_queue_family_index: Option<u32>,
    pub transfer_queue_family_index: Option<u32>,
}

/// The first family, if any, with every flag of `contains` and none of `exclude`.
pub open spec fn first_family(flags: Seq<u32>, contains: u32, exclude: u32) -> Option<u32> {
    if exists|k: int| 0 <= k < flags.len() && flags_select(flags[k], contains, exclude) {
        let k = choose|k: int|
            0 <= k < flags.len() && flags_select(flags[k], contains, exclude) && forall|m: int|
                0 <= m < k ==> !flags_select(#[trigger] flags[m], contains, exclude);
        Some(k as u32)
    } else {
        None
    }
}

proof fn lemma_first_family(flags: Seq<u32>, contains: u32, exclude: u32, found: Option<u32>)
    requires
        match found {
            Some(i) => exists|k: int|
                0 <= k < flags.len() && i == k as u32 && flags_select(flags[k], contains, exclude)
                    && forall|m: int| 0 <= m < k ==> !flags_select(#[trigger] flags[m], contains, exclude),
            None => forall|m: int| 0 <= m < flags.len() ==> !flags_select(#[trigger] flags[m], contains, exclude),
        },
    ensures
        found == first_family(flags, contains, exclude),
{
    if let Some(i) = found {
        let k = choose|k: int|
            0 <= k < flags.len() && i == k as u32 && flags_select(flags[k], contains, exclude)
                && forall|m: int| 0 <= m < k ==> !flags_select(#[trigger] flags[m], contains, exclude);
        let c = choose|k: int|
            0 <= k < flags.len() && flags_select(flags[k], contains, exclude) && forall|m: int|
                0 <= m < k ==> !flags_select(#[trigger] flags[m], contains, exclude);
        if c < k {
            assert(!flags_select(flags[c], contains, exclude));
        }
        if k < c {
            assert(!flags_select(flags[k], contains, exclude));
        }
    }
}

impl PhysicalDeviceQueueInfo {
    /// The families chosen from the flags of each queue family, in order.
    pub fn from_queue_families(queue_family_flags: &[u32]) -> (queue: Self)
        ensures
            queue.graphics_queue_family_index == first_family(
                queue_family_flags@,
                QUEUE_GRAPHICS | QUEUE_COMPUTE | QUEUE_TRANSFER,
                0,
            ),
            queue.compute_queue_family_index == first_family(
                queue_family_flags@,
                QUEUE_COMPUTE | QUEUE_TRANSFER,
                QUEUE_GRAPHICS,
            ),
            queue.transfer_queue_family_index == first_family(
                queue_family_flags@,
                QUEUE_TRANSFER,
                QUEUE_GRAPHICS | QUEUE_COMPUTE,
            ),
    {
        let graphics = find_queue_index(queue_family_flags, QUEUE_GRAPHICS | QUEUE_COMPUTE | QUEUE_TRANSFER, 0);
        let compute = find_queue_index(queue_family_flags, QUEUE_COMPUTE | QUEUE_TRANSFER, QUEUE_GRAPHICS);
        let transfer = find_queue_index(queue_family_flags, QUEUE_TRANSFER, QUEUE_GRAPHICS | QUEUE_COMPUTE);
        proof {
            lemma_first_family(queue_family_flags@, QUEUE_GRAPHICS | QUEUE_COMPUTE | QUEUE_TRANSFER, 0, graphics);
            lemma_first_family(queue_family_flags@, QUEUE_COMPUTE | QUEUE_TRANSFER, QUEUE_GRAPHICS, compute);
            lemma_first_family(queue_family_flags@, QUEUE_TRANSFER, QUEUE_GRAPHICS | QUEUE_COMPUTE, transfer);
        }
        PhysicalDeviceQueueInfo {
            graphics_queue_family_index: graphics,
            compute_queue_family_index: compute,
            transfer_queue_family_index: transfer,
        }
    }

    pub fn supports_graphics(&self) -> (b: bool)
        ensures
            b == self.graphics_queue_family_index is Some,
    {
        self.graphics_queue_family_index.is_some()
    }

    pub fn supports_async_compute(&self) -> (b: bool)
        ensures
            b == self.compute_queue_family_index is Some,
    {
        self.compute_queue_family_index.is_some()
    }

    pub fn supports_async_transfer(&self) -> (b: bool)
        ensures
            b == self.transfer_queue_family_index is Some,
    {
        self.transfer_queue_family_index.is_some()
    }
}

#[derive(PartialEq, Eq, Structural, Clone, Copy, Debug)]
pub struct PhysicalDeviceExtensionInfo {
    pub raytracing_support: bool,
    pub mesh_shader_support: bool,
}

impl PhysicalDeviceExtensionInfo {
    /// Ray tracing needs both the acceleration structure and the ray tracing pipeline
    /// extensions; mesh shading needs the mesh shader extension.
    pub fn from_extensions(extension_list: &[Vec<u8>]) -> (extension: Self)
        ensures
            extension.raytracing_support == (has_extension(
                extension_list@,
                ascii_bytes("VK_KHR_acceleration_structure"@),
            ) && has_extension(extension_list@, ascii_bytes("VK_KHR_ray_tracing_pipeline"@))),
            extension.mesh_shader_support == has_extension(extension_list@, ascii_bytes("VK_EXT_mesh_shader"@)),
    {
        let acceleration_structure = acceleration_structure_name();
        let ray_tracing_pipeline = ray_tracing_pipeline_name();
        let mesh_shader = mesh_shader_name();
        let raytracing_support = supports_extension(extension_list, acceleration_structure.as_slice())
            && supports_extension(extension_list, ray_tracing_pipeline.as_slice());
        PhysicalDeviceExtensionInfo {
            raytracing_support,
            mesh_shader_support: supports_extension(extension_list, mesh_shader.as_slice()),
        }
    }
}

} // verus!
