//! Loopback audio devices: their records, the settings kept for them, and the
//! choice of the device to capture from when the user has not chosen one.

use vstd::prelude::*;
use crate::text::{chars_of, contains_str, has_substring, lowercase, to_lowercase, to_owned_string};

verus! {

/// Whether a device plays or records sound.
#[derive(Debug, Clone, Copy, PartialEq, Eq, Structural)]
pub enum DeviceType {
    Render,
    Capture,
}

/// How sound played on the machine can be captured from a device.
#[derive(Debug, Clone, Copy, PartialEq, Eq, Structural)]
pub enum LoopbackMethod {
    RenderLoopback,
    CaptureDevice,
    StereoMix,
}

/// An audio device that loopback capture can use.
#[derive(Debug, Clone)]
pub struct AudioLoopbackDevice {
    pub id: String,
    pub name: String,
    pub is_default: bool,
    pub sample_rate: u32,
    pub channels: u16,
    pub format: String,
    pub device_type: DeviceType,
    pub loopback_method: LoopbackMethod,
}

/// The user's loopback settings.
#[derive(Debug, Clone)]
pub struct AudioDeviceSettings {
    pub selected_loopback_device: Option<String>,
    pub loopback_enabled: bool,
    pub buffer_size: u32,
    pub sample_rate: u32,
}

impl Default for AudioDeviceSettings {
    /// No device chosen, loopback off, 4096-sample buffers at 16 kHz.
    fn default() -> (s: Self)
        ensures
            s.selected_loopback_device is None,
            !s.loopback_enabled,
            s.buffer_size == 4096,
            s.sample_rate == 16000,
    {
        AudioDeviceSettings {
            selected_loopback_device: None,
            loopback_enabled: false,
            buffer_size: 4096,
            sample_rate: 16000,
        }
    }
}

/// The kinds of device that loopback capture prefers, best first: the default
/// output device with render loopback, any output device with render
/// loopback, a Stereo Mix device, any recording device.
pub open spec fn preferred(d: AudioLoopbackDevice, rank: int) -> bool {
    if rank == 0 {
        d.is_default && d.device_type == DeviceType::Render && d.loopback_method
            == LoopbackMethod::RenderLoopback
    } else if rank == 1 {
        d.device_type == DeviceType::Render && d.loopback_method == LoopbackMethod::RenderLoopback
    } else if rank == 2 {
        d.loopback_method == LoopbackMethod::StereoMix
    } else {
        d.device_type == DeviceType::Capture
    }
}

/// Whether some device is of the kind `rank`.
pub open spec fn has_rank(ds: Seq<AudioLoopbackDevice>, rank: int) -> bool {
    exists|i: int| 0 <= i < ds.len() && preferred(#[trigger] ds[i], rank)
}

/// Whether `i` is the first device of the best kind present (the first device
/// where none of the kinds is present).
pub open spec fn best_choice(ds: Seq<AudioLoopbackDevice>, i: int) -> bool {
    &&& 0 <= i < ds.len()
    &&& if exists|r: int| 0 <= r < 4 && #[trigger] has_rank(ds, r) {
        exists|r: int|
            0 <= r < 4 && #[trigger] has_rank(ds, r) && (forall|q: int| 0 <= q < r ==> !has_rank(ds, q))
                && preferred(ds[i], r) && (forall|k: int| 0 <= k < i ==> !preferred(#[trigger] ds[k], r))
    } else {
        i == 0
    }
}

fn first_of_rank(ds: &Vec<AudioLoopbackDevice>, rank: u8) -> (r: Option<usize>)
    requires
        rank < 4,
    ensures
        match r {
            Some(i) => i < ds@.len() && preferred(ds@[i as int], rank as int) && forall|k: int|
                0 <= k < i ==> !preferred(#[trigger] ds@[k], rank as int),
            None => !has_rank(ds@, rank as int),
        },
{
    let mut i: usize = 0;
    while i < ds.len()
        invariant
            rank < 4,
            i <= ds.len(),
            forall|k: int| 0 <= k < i ==> !preferred(#[trigger] ds@[k], rank as int),
        decreases ds.len() - i,
    {
        let d = &ds[i];
        let ok = if rank == 0 {
            d.is_default && d.device_type == DeviceType::Render && d.loopback_method
                == LoopbackMethod::RenderLoopback
        } else if rank == 1 {
            d.device_type == DeviceType::Render && d.loopback_method == LoopbackMethod::RenderLoopback
        } else if rank == 2 {
            d.loopback_method == LoopbackMethod::StereoMix
        } else {
            d.device_type == DeviceType::Capture
        };
        if ok {
            return Some(i);
        }
        i = i + 1;
    }
    None
}

/// The position of the device that loopback capture picks, or `None` where
/// there are no devices.
pub fn select_best_device(devices: &Vec<AudioLoopbackDevice>) -> (r: Option<usize>)
    ensures
        match r {
            Some(i) => best_choice(devices@, i as int),
            None => devices@.len() == 0,
        },
{
    if devices.len() == 0 {
        return None;
    }
    let mut rank: u8 = 0;
    while rank < 4
        invariant
            rank <= 4,
            devices@.len() > 0,
            forall|q: int| 0 <= q < rank ==> !has_rank(devices@, q),
        decreases 4 - rank,
    {
        match first_of_rank(devices, rank) {
            Some(i) => {
                assert(has_rank(devices@, rank as int));
                return Some(i);
            },
            None => {},
        }
        rank = rank + 1;
    }
    Some(0)
}

/// A copy of a device record.
pub fn copy_device(d: &AudioLoopbackDevice) -> (c: AudioLoopbackDevice)
    ensures
        c.id@ == d.id@,
        c.name@ == d.name@,
        c.is_default == d.is_default,
        c.sample_rate == d.sample_rate,
        c.channels == d.channels,
        c.format@ == d.format@,
        c.device_type == d.device_type,
        c.loopback_method == d.loopback_method,
{
    AudioLoopbackDevice {
        id: to_owned_string(d.id.as_str()),
        name: to_owned_string(d.name.as_str()),
        is_default: d.is_default,
        sample_rate: d.sample_rate,
        channels: d.channels,
        format: to_owned_string(d.format.as_str()),
        device_type: d.device_type,
        loopback_method: d.loopback_method,
    }
}

/// The device that loopback capture picks: the first of the best kind present,
/// else the first device; `None` where there are no devices.
pub fn auto_select_best_device(devices: &Vec<AudioLoopbackDevice>) -> (r: Option<AudioLoopbackDevice>)
    ensures
        devices@.len() == 0 <==> r is None,
        r matches Some(d) ==> exists|i: int|
            #![trigger best_choice(devices@, i)]
            best_choice(devices@, i) && d.id@ == devices@[i].id@ && d.name@ == devices@[i].name@
                && d.device_type == devices@[i].device_type && d.loopback_method
                == devices@[i].loopback_method && d.is_default == devices@[i].is_default
                && d.sample_rate == devices@[i].sample_rate && d.channels == devices@[i].channels
                && d.format@ == devices@[i].format@,
{
    match select_best_device(devices) {
        None => None,
        Some(i) => {
            let d = copy_device(&devices[i]);
            assert(best_choice(devices@, i as int));
            Some(d)
        },
    }
}

/// The device with the given id.
pub fn find_device_by_id(devices: &Vec<AudioLoopbackDevice>, device_id: &str) -> (r: Option<usize>)
    ensures
        match r {
            Some(i) => i < devices@.len() && devices@[i as int].id@ == device_id@ && forall|k: int|
                0 <= k < i ==> (#[trigger] devices@[k]).id@ != device_id@,
            None => forall|k: int| 0 <= k < devices@.len() ==> (#[trigger] devices@[k]).id@ != device_id@,
        },
{
    let mut i: usize = 0;
    while i < devices.len()
        invariant
            i <= devices.len(),
            forall|k: int| 0 <= k < i ==> (#[trigger] devices@[k]).id@ != device_id@,
        decreases devices.len() - i,
    {
        if crate::text::str_eq(devices[i].id.as_str(), device_id) {
            return Some(i);
        }
        i = i + 1;
    }
    None
}

/// The embedding model and how it is run.
#[derive(Debug, Clone)]
pub struct EmbeddingConfig {
    pub model_name: String,
    pub max_length: usize,
    pub normalize_embeddings: bool,
    pub show_download_progress: bool,
}

impl Default for EmbeddingConfig {
    /// `BAAI/bge-small-en-v1.5`, 512 tokens, normalized, with download progress shown.
    fn default() -> (c: Self)
        ensures
            c.model_name@ == "BAAI/bge-small-en-v1.5"@,
            c.max_length == 512,
            c.normalize_embeddings,
            c.show_download_progress,
    {
        EmbeddingConfig {
            model_name: to_owned_string("BAAI/bge-small-en-v1.5"),
            max_length: 512,
            normalize_embeddings: true,
            show_download_progress: true,
        }
    }
}


/// Whether a capture device's name suggests that it records what the
/// machine plays (compared in lower case).
pub open spec fn loopback_capture_name(name: Seq<char>) -> bool {
    let l = lowercase(name);
    has_substring(l, "loopback"@) || has_substring(l, "what u hear"@) || has_substring(l, "what you hear"@)
        || has_substring(l, "wave"@) || has_substring(l, "mix"@) || (has_substring(l, "speakers"@)
        && has_substring(l, "capture"@))
}

/// Whether a capture device's name is that of a "Stereo Mix" style device
/// (compared in lower case).
pub open spec fn stereo_mix_name(name: Seq<char>) -> bool {
    let l = lowercase(name);
    has_substring(l, "stereo mix"@) || has_substring(l, "stereomix"@) || has_substring(l, "wave"@)
        || has_substring(l, "what u hear"@) || has_substring(l, "what you hear"@)
}

/// Whether a capture device may record what the machine plays, by its name.
pub fn is_potential_loopback_capture_device(name: &str) -> (b: bool)
    ensures
        b == loopback_capture_name(name@),
{
    let low = to_lowercase(name);
    let l = low.as_str();
    contains_str(l, "loopback") || contains_str(l, "what u hear") || contains_str(l, "what you hear")
        || contains_str(l, "wave") || contains_str(l, "mix") || (contains_str(l, "speakers")
        && contains_str(l, "capture"))
}

/// Whether a capture device is a "Stereo Mix" style device, by its name.
pub fn is_stereo_mix_device(name: &str) -> (b: bool)
    ensures
        b == stereo_mix_name(name@),
{
    let low = to_lowercase(name);
    let l = low.as_str();
    contains_str(l, "stereo mix") || contains_str(l, "stereomix") || contains_str(l, "wave")
        || contains_str(l, "what u hear") || contains_str(l, "what you hear")
}


// ---------------------------------------------------------------------------
// Listing devices (the aggregate-device platform)
// ---------------------------------------------------------------------------

/// Whether name `a` comes no later than name `b`: compared character by
/// character by code point, a name before any longer name it begins (the
/// order of their UTF-8 bytes, which is how `String` orders).
pub open spec fn name_le(a: Seq<char>, b: Seq<char>) -> bool
    decreases a.len(),
{
    if a.len() == 0 {
        true
    } else if b.len() == 0 {
        false
    } else if a[0] < b[0] {
        true
    } else if a[0] == b[0] {
        name_le(a.skip(1), b.skip(1))
    } else {
        false
    }
}

proof fn lemma_name_le_total(a: Seq<char>, b: Seq<char>)
    ensures
        name_le(a, b) || name_le(b, a),
    decreases a.len(),
{
    if a.len() > 0 && b.len() > 0 && a[0] == b[0] {
        lemma_name_le_total(a.skip(1), b.skip(1));
    }
}

proof fn lemma_name_le_trans(a: Seq<char>, b: Seq<char>, c: Seq<char>)
    requires
        name_le(a, b),
        name_le(b, c),
    ensures
        name_le(a, c),
    decreases a.len(),
{
    if a.len() > 0 && b.len() > 0 && c.len() > 0 && a[0] == b[0] && b[0] == c[0] {
        lemma_name_le_trans(a.skip(1), b.skip(1), c.skip(1));
    }
}

fn name_le_exec(a: &str, b: &str) -> (r: bool)
    ensures
        r == name_le(a@, b@),
{
    let x = chars_of(a);
    let y = chars_of(b);
    let mut i: usize = 0;
    assert(x@.skip(0) =~= x@);
    assert(y@.skip(0) =~= y@);
    while i < x.len() && i < y.len() && x[i] == y[i]
        invariant
            x@ == a@,
            y@ == b@,
            i <= x@.len(),
            i <= y@.len(),
            name_le(x@, y@) == name_le(x@.skip(i as int), y@.skip(i as int)),
        decreases x@.len() - i,
    {
        proof {
            assert(x@.skip(i as int)[0] == x@[i as int]);
            assert(y@.skip(i as int)[0] == y@[i as int]);
            assert(x@.skip(i as int).skip(1) =~= x@.skip(i + 1));
            assert(y@.skip(i as int).skip(1) =~= y@.skip(i + 1));
        }
        i = i + 1;
    }
    if i == x.len() {
        true
    } else if i == y.len() {
        false
    } else {
        assert(x@.skip(i as int)[0] == x@[i as int]);
        assert(y@.skip(i as int)[0] == y@[i as int]);
        x[i] < y[i]
    }
}

/// Whether device `a` may be listed before device `b`: default devices
/// first, then by name.
pub open spec fn listed_le(a: AudioLoopbackDevice, b: AudioLoopbackDevice) -> bool {
    (a.is_default && !b.is_default) || (a.is_default == b.is_default && name_le(a.name@, b.name@))
}

proof fn lemma_listed_le_total(a: AudioLoopbackDevice, b: AudioLoopbackDevice)
    ensures
        listed_le(a, b) || listed_le(b, a),
{
    lemma_name_le_total(a.name@, b.name@);
}

proof fn lemma_listed_le_trans(a: AudioLoopbackDevice, b: AudioLoopbackDevice, c: AudioLoopbackDevice)
    requires
        listed_le(a, b),
        listed_le(b, c),
    ensures
        listed_le(a, c),
{
    if a.is_default == b.is_default && b.is_default == c.is_default {
        lemma_name_le_trans(a.name@, b.name@, c.name@);
    }
}

/// Whether devices are in listing order.
pub open spec fn listing_order(v: Seq<AudioLoopbackDevice>) -> bool {
    forall|a: int, b: int| 0 <= a < b < v.len() ==> listed_le(#[trigger] v[a], #[trigger] v[b])
}

fn listed_le_exec(a: &AudioLoopbackDevice, b: &AudioLoopbackDevice) -> (r: bool)
    ensures
        r == listed_le(*a, *b),
{
    (a.is_default && !b.is_default) || (a.is_default == b.is_default && name_le_exec(
        a.name.as_str(),
        b.name.as_str(),
    ))
}

/// The devices of `v` that are listed in the same place as `d` (as default
/// or not as `d`, with the same name), in their order in `v`.
pub open spec fn listed_with(v: Seq<AudioLoopbackDevice>, d: AudioLoopbackDevice) -> Seq<AudioLoopbackDevice> {
    v.filter(|y: AudioLoopbackDevice| listed_le(y, d) && listed_le(d, y))
}

proof fn lemma_none_listed_with(v: Seq<AudioLoopbackDevice>, d: AudioLoopbackDevice)
    requires
        forall|i: int| 0 <= i < v.len() ==> !(listed_le(#[trigger] v[i], d) && listed_le(d, v[i])),
    ensures
        listed_with(v, d) == Seq::<AudioLoopbackDevice>::empty(),
    decreases v.len(),
{
    reveal_with_fuel(Seq::filter, 1);
    if v.len() > 0 {
        lemma_none_listed_with(v.drop_last(), d);
        assert(v.last() == v[v.len() - 1]);
    }
    assert(listed_with(v, d) =~= Seq::<AudioLoopbackDevice>::empty());
}

/// The devices in listing order: default devices first, each group ordered
/// by name; devices listed in the same place keep their order.
pub fn sort_loopback_devices(v: Vec<AudioLoopbackDevice>) -> (r: Vec<AudioLoopbackDevice>)
    ensures
        listing_order(r@),
        r@.to_multiset() == v@.to_multiset(),
        forall|d: AudioLoopbackDevice| #[trigger] listed_with(r@, d) == listed_with(v@, d),
{
    let ghost orig = v@;
    let mut rest = v;
    let n: usize = rest.len();
    let mut r: Vec<AudioLoopbackDevice> = Vec::new();
    let mut k: usize = 0;
    assert(r@ =~= orig.take(0));
    while rest.len() > 0
        invariant
            k <= orig.len() == n,
            rest@ == orig.skip(k as int),
            listing_order(r@),
            r@.to_multiset() == orig.take(k as int).to_multiset(),
            r@.len() == k,
            forall|d: AudioLoopbackDevice| #[trigger] listed_with(r@, d) == listed_with(orig.take(k as int), d),
        decreases rest.len(),
    {
        let x = rest.remove(0);
        let mut p: usize = 0;
        while p < r.len() && listed_le_exec(&r[p], &x)
            invariant
                p <= r.len(),
                forall|q: int| 0 <= q < p ==> listed_le(#[trigger] r@[q], x),
            decreases r.len() - p,
        {
            p = p + 1;
        }
        let ghost before = r@;
        proof {
            if p < before.len() {
                lemma_listed_le_total(before[p as int], x);
            }
        }
        r.insert(p, x);
        proof {
            assert(r@ == before.insert(p as int, x));
            assert(before.insert(p as int, x) =~= before.take(p as int).push(x) + before.skip(
                p as int,
            ));
            vstd::seq_lib::lemma_multiset_commutative(before.take(p as int).push(x), before.skip(
                p as int,
            ));
            vstd::seq_lib::lemma_multiset_commutative(before.take(p as int), before.skip(p as int));
            assert(before.take(p as int) + before.skip(p as int) =~= before);
            before.take(p as int).to_multiset_ensures();
            orig.take(k as int).to_multiset_ensures();
            assert(orig.take(k + 1) =~= orig.take(k as int).push(x));
            assert forall|a: int, b: int| 0 <= a < b < r@.len() implies listed_le(
                #[trigger] r@[a],
                #[trigger] r@[b],
            ) by {
                if a < p && b == p {
                } else if a < p && b > p {
                    assert(r@[b] == before[b - 1]);
                } else if a == p && b > p {
                    assert(r@[b] == before[b - 1]);
                    if b - 1 > p {
                        lemma_listed_le_trans(x, before[p as int], before[b - 1]);
                    }
                } else if a > p {
                    assert(r@[a] == before[a - 1]);
                    assert(r@[b] == before[b - 1]);
                }
            }
            let lo = before.take(p as int);
            let hi = before.skip(p as int);
            assert forall|d: AudioLoopbackDevice| #[trigger] listed_with(r@, d) == listed_with(
                orig.take(k + 1),
                d,
            ) by {
                let f = |y: AudioLoopbackDevice| listed_le(y, d) && listed_le(d, y);
                reveal_with_fuel(Seq::filter, 1);
                Seq::filter_distributes_over_add(lo.push(x), hi, f);
                Seq::filter_distributes_over_add(lo, hi, f);
                assert(lo.push(x).drop_last() =~= lo);
                assert(listed_with(orig.take(k as int), d) == listed_with(before, d));
                assert(orig.take(k + 1).drop_last() =~= orig.take(k as int));
                if listed_le(x, d) && listed_le(d, x) {
                    assert forall|i: int| 0 <= i < hi.len() implies !(listed_le(#[trigger] hi[i], d)
                        && listed_le(d, hi[i])) by {
                        assert(hi[i] == before[p + i]);
                        if listed_le(hi[i], d) && listed_le(d, hi[i]) {
                            lemma_listed_le_trans(hi[i], d, x);
                            if i > 0 {
                                assert(listed_le(before[p as int], before[p + i]));
                                lemma_listed_le_trans(before[p as int], hi[i], x);
                            }
                        }
                    }
                    lemma_none_listed_with(hi, d);
                    assert(listed_with(before, d) =~= listed_with(lo, d));
                } else {
                    assert(listed_with(lo.push(x), d) =~= listed_with(lo, d));
                }
            }
        }
        assert(rest@ =~= orig.skip(k + 1));
        k = k + 1;
    }
    assert(orig.take(k as int) =~= orig);
    r
}

/// The device picked on the aggregate-device platform: the first default
/// device, else the first device; `None` where there are none.
pub fn auto_select_default_first(devices: &Vec<AudioLoopbackDevice>) -> (r: Option<usize>)
    ensures
        devices@.len() == 0 <==> r is None,
        r matches Some(i) ==> i < devices@.len() && if exists|k: int|
            0 <= k < devices@.len() && (#[trigger] devices@[k]).is_default {
            devices@[i as int].is_default && forall|k: int|
                0 <= k < i ==> !(#[trigger] devices@[k]).is_default
        } else {
            i == 0
        },
{
    if devices.len() == 0 {
        return None;
    }
    let mut i: usize = 0;
    while i < devices.len()
        invariant
            i <= devices@.len(),
            forall|k: int| 0 <= k < i ==> !(#[trigger] devices@[k]).is_default,
        decreases devices@.len() - i,
    {
        if devices[i].is_default {
            return Some(i);
        }
        i = i + 1;
    }
    Some(0)
}

/// Where devices are in listing order and some device is a default device,
/// the device picked is a default device, the first in the list.
pub proof fn law_listed_default_is_picked_first(v: Seq<AudioLoopbackDevice>)
    requires
        listing_order(v),
        exists|k: int| 0 <= k < v.len() && (#[trigger] v[k]).is_default,
    ensures
        v[0].is_default,
{
    let k = choose|k: int| 0 <= k < v.len() && (#[trigger] v[k]).is_default;
    if k > 0 {
        assert(listed_le(v[0], v[k]));
    }
}

// ---------------------------------------------------------------------------
// Capture loop decisions
// ---------------------------------------------------------------------------

/// How many times the audio client is initialized before capture gives up.
pub const MAX_INIT_ATTEMPTS: u32 = 3;

/// After initialization attempt `attempt` (counted from one) has failed:
/// `None` to try again, or the error that ends capture once the attempts are
/// used up.
pub fn after_failed_init(attempt: u32) -> (r: Option<String>)
    ensures
        attempt < MAX_INIT_ATTEMPTS ==> r is None,
        attempt >= MAX_INIT_ATTEMPTS ==> (r matches Some(m)
            && m@ == "Failed to initialize audio client after 3 attempts. Device may be busy."@),
{
    if attempt < MAX_INIT_ATTEMPTS {
        None
    } else {
        Some(to_owned_string("Failed to initialize audio client after 3 attempts. Device may be busy."))
    }
}

/// The size of the buffer to read `frames` frames of `bytes_per_frame` bytes
/// into, at least 4096 bytes; `None` (skip this round) where there is nothing
/// to read or the data would exceed one mebibyte.
pub fn capture_buffer_size(frames: u32, bytes_per_frame: u16) -> (r: Option<usize>)
    ensures
        frames == 0 || bytes_per_frame == 0 || frames * bytes_per_frame > 1_048_576 ==> r is None,
        !(frames == 0 || bytes_per_frame == 0 || frames * bytes_per_frame > 1_048_576) ==> r == Some(
            if frames * bytes_per_frame > 4096 {
                (frames * bytes_per_frame) as usize
            } else {
                4096usize
            },
        ),
{
    if frames == 0 || bytes_per_frame == 0 {
        return None;
    }
    assert(frames as u64 * bytes_per_frame as u64 <= 0xFFFF_FFFFu64 * 0xFFFFu64) by (nonlinear_arith)
        requires
            frames <= 0xFFFF_FFFFu32,
            bytes_per_frame <= 0xFFFFu16,
    ;
    let size: u64 = frames as u64 * bytes_per_frame as u64;
    if size > 1_048_576 {
        None
    } else if size > 4096 {
        Some(size as usize)
    } else {
        Some(4096)
    }
}

/// The error count after one read from the device, and whether capture stops:
/// a good read lowers a positive count by one; a failed read raises it, and
/// capture stops once it exceeds ten.
pub fn after_read(error_count: u32, read_ok: bool) -> (r: (u32, bool))
    requires
        error_count < u32::MAX,
    ensures
        read_ok ==> r == (if error_count > 0 { (error_count - 1) as u32 } else { 0u32 }, false),
        !read_ok ==> r == ((error_count + 1) as u32, error_count + 1 > 10),
{
    if read_ok {
        if error_count > 0 {
            (error_count - 1, false)
        } else {
            (0, false)
        }
    } else {
        let c = error_count + 1;
        (c, c > 10)
    }
}

} // verus!
