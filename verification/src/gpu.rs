//! Reading what system tools print about graphics cards: `nvidia-smi` CSV
//! lines, `lspci` listings and memory sizes such as `8 GB`.
//!
//! Running the tools is the caller's part; the text they print comes here.

use vstd::prelude::*;
use crate::text::{
    chars_of, contains_str, has_substring, lowercase, split_whitespace_chars, str_eq,
    string_from_chars, to_lowercase, to_owned_string, trim, trim_chars, words,
};

verus! {

/// Who made a graphics card.
#[derive(Debug, Clone, Copy, PartialEq, Eq, Structural)]
pub enum GpuVendor {
    Nvidia,
    Amd,
    Intel,
    Unknown,
}

/// What a tool reported about one graphics card.
///
/// The temperature and utilization are kept as the text the tool printed; they
/// are decimal fractions, which the caller reads as floating-point numbers.
#[derive(Debug, Clone)]
pub struct GpuInfo {
    pub name: String,
    pub driver_version: Option<String>,
    /// Megabytes.
    pub memory_total: Option<u64>,
    /// Megabytes.
    pub memory_used: Option<u64>,
    pub temperature_text: Option<String>,
    pub utilization_text: Option<String>,
    pub vendor: GpuVendor,
    pub pci_id: Option<String>,
}

// ---------------------------------------------------------------------------
// Numbers
// ---------------------------------------------------------------------------

/// Whether `c` is an ASCII decimal digit.
pub open spec fn is_digit(c: char) -> bool {
    '0' <= c && c <= '9'
}

/// The value of a run of decimal digits.
pub open spec fn digits_value(t: Seq<char>) -> nat
    decreases t.len(),
{
    if t.len() == 0 {
        0
    } else {
        digits_value(t.drop_last()) * 10 + ((t.last() as u32) - 48) as nat
    }
}

/// Whether every character of `t` is a decimal digit.
pub open spec fn all_digits(t: Seq<char>) -> bool {
    forall|i: int| 0 <= i < t.len() ==> is_digit(#[trigger] t[i])
}

/// `s` without a leading `+`.
pub open spec fn unsigned_part(s: Seq<char>) -> Seq<char> {
    if s.len() > 0 && s[0] == '+' {
        s.drop_first()
    } else {
        s
    }
}

/// What `str::parse::<u64>` gives: an optional `+` followed by at least one
/// decimal digit and nothing else, with a value that fits in a `u64`.
pub open spec fn parse_u64(s: Seq<char>) -> Option<u64> {
    let t = unsigned_part(s);
    if t.len() > 0 && all_digits(t) && digits_value(t) <= u64::MAX {
        Some(digits_value(t) as u64)
    } else {
        None
    }
}

proof fn lemma_digits_value_grows(t: Seq<char>, k: int)
    requires
        0 <= k <= t.len(),
        forall|i: int| 0 <= i < t.len() ==> is_digit(#[trigger] t[i]),
    ensures
        digits_value(t.take(k)) <= digits_value(t),
    decreases t.len() - k,
{
    if k < t.len() {
        lemma_digits_value_grows(t, k + 1);
        assert(t.take(k + 1).drop_last() =~= t.take(k));
        assert(digits_value(t.take(k + 1)) == digits_value(t.take(k)) * 10 + ((t[k] as u32)
            - 48) as nat);
    } else {
        assert(t.take(k) =~= t);
    }
}

/// Reads a `u64` as `str::parse::<u64>` does.
pub fn parse_u64_chars(s: &Vec<char>) -> (r: Option<u64>)
    ensures
        r == parse_u64(s@),
{
    let start: usize = if s.len() > 0 && s[0] == '+' {
        1
    } else {
        0
    };
    let ghost t = unsigned_part(s@);
    assert(t =~= s@.skip(start as int));
    if start >= s.len() {
        return None;
    }
    let mut v: u64 = 0;
    let mut i: usize = start;
    while i < s.len()
        invariant
            start <= i <= s.len(),
            t == s@.skip(start as int),
            t == unsigned_part(s@),
            t.len() > 0,
            forall|q: int| 0 <= q < i - start ==> is_digit(#[trigger] t[q]),
            v == digits_value(t.take(i - start)),
        decreases s.len() - i,
    {
        let c = s[i];
        if !('0' <= c && c <= '9') {
            assert(!is_digit(t[i - start]));
            return None;
        }
        assert(t.take(i - start + 1).drop_last() =~= t.take(i - start));
        assert(t.take(i - start + 1).last() == c);
        let d: u64 = ((c as u32) - 48) as u64;
        match v.checked_mul(10) {
            None => {
                proof {
                    if all_digits(t) {
                        lemma_digits_value_grows(t, i - start + 1);
                    }
                }
                return None;
            },
            Some(w) => match w.checked_add(d) {
                None => {
                    proof {
                        if all_digits(t) {
                            lemma_digits_value_grows(t, i - start + 1);
                        }
                    }
                    return None;
                },
                Some(x) => {
                    v = x;
                },
            },
        }
        i = i + 1;
    }
    assert(t.take(i - start) =~= t);
    Some(v)
}

// ---------------------------------------------------------------------------
// Splitting
// ---------------------------------------------------------------------------

/// The pieces of `s` between the occurrences of `c` (what `str::split` gives
/// for a character pattern).
pub open spec fn split_on(s: Seq<char>, c: char) -> Seq<Seq<char>>
    decreases s.len(),
{
    if s.len() == 0 {
        seq![Seq::empty()]
    } else {
        let prev = split_on(s.drop_last(), c);
        if s.last() == c {
            prev.push(Seq::empty())
        } else {
            prev.update(prev.len() - 1, prev.last().push(s.last()))
        }
    }
}

proof fn lemma_split_on_nonempty(s: Seq<char>, c: char)
    ensures
        split_on(s, c).len() > 0,
    decreases s.len(),
{
    if s.len() > 0 {
        lemma_split_on_nonempty(s.drop_last(), c);
    }
}

/// The pieces of `v` between the occurrences of `c`.
pub fn split_on_char(v: &Vec<char>, c: char) -> (r: Vec<Vec<char>>)
    ensures
        r@.map_values(|p: Vec<char>| p@) == split_on(v@, c),
{
    let mut r: Vec<Vec<char>> = Vec::new();
    r.push(Vec::new());
    let mut i: usize = 0;
    assert(r@.map_values(|p: Vec<char>| p@) =~= split_on(v@.take(0), c));
    while i < v.len()
        invariant
            i <= v.len(),
            r@.len() > 0,
            r@.map_values(|p: Vec<char>| p@) == split_on(v@.take(i as int), c),
        decreases v.len() - i,
    {
        assert(v@.take(i + 1).drop_last() =~= v@.take(i as int));
        assert(v@.take(i + 1).last() == v@[i as int]);
        let ghost prev = r@.map_values(|p: Vec<char>| p@);
        if v[i] == c {
            r.push(Vec::new());
            assert(r@.map_values(|p: Vec<char>| p@) =~= prev.push(Seq::empty()));
        } else {
            let last = r.len() - 1;
            let mut p = r.remove(last);
            p.push(v[i]);
            r.push(p);
            assert(r@.map_values(|p: Vec<char>| p@) =~= prev.update(
                prev.len() - 1,
                prev.last().push(v@[i as int]),
            ));
        }
        i = i + 1;
    }
    assert(v@.take(i as int) =~= v@);
    r
}

// ---------------------------------------------------------------------------
// Vendors and memory
// ---------------------------------------------------------------------------

/// The vendor a card's name points to, looked up in the lower-cased name.
pub open spec fn vendor_of(name: Seq<char>) -> GpuVendor {
    let low = lowercase(name);
    if has_substring(low, "nvidia"@) {
        GpuVendor::Nvidia
    } else if has_substring(low, "amd"@) || has_substring(low, "radeon"@) {
        GpuVendor::Amd
    } else if has_substring(low, "intel"@) {
        GpuVendor::Intel
    } else {
        GpuVendor::Unknown
    }
}

/// The vendor a card's name points to.
pub fn vendor_from_name(name: &str) -> (v: GpuVendor)
    ensures
        v == vendor_of(name@),
{
    let low = to_lowercase(name);
    let l = low.as_str();
    if contains_str(l, "nvidia") {
        GpuVendor::Nvidia
    } else if contains_str(l, "amd") || contains_str(l, "radeon") {
        GpuVendor::Amd
    } else if contains_str(l, "intel") {
        GpuVendor::Intel
    } else {
        GpuVendor::Unknown
    }
}

/// The megabytes a size such as `512 MB`, `8 GB` or `2048 KB` stands for: the
/// first word read as a number, scaled by the unit in the second word (upper
/// or lower case; another unit counts as megabytes). Gigabytes are multiplied
/// by 1024 with wrap-around on overflow; kilobytes are divided by 1024.
pub open spec fn memory_megabytes(s: Seq<char>) -> Option<u64> {
    let ws = words(s);
    if ws.len() >= 2 {
        match parse_u64(ws[0]) {
            Some(v) => {
                let unit = lowercase(ws[1]);
                if unit == "mb"@ {
                    Some(v)
                } else if unit == "gb"@ {
                    Some(((v * 1024) % 0x1_0000_0000_0000_0000) as u64)
                } else if unit == "kb"@ {
                    Some((v / 1024) as u64)
                } else {
                    Some(v)
                }
            },
            None => None,
        }
    } else {
        None
    }
}

/// The megabytes that a memory size text stands for.
pub fn extract_memory_from_string(memory_str: &str) -> (r: Option<u64>)
    ensures
        r == memory_megabytes(memory_str@),
{
    let v = chars_of(memory_str);
    let ws = split_whitespace_chars(v.as_slice());
    assert(ws@.map_values(|w: Vec<char>| w@) == words(memory_str@));
    if ws.len() < 2 {
        return None;
    }
    assert(ws@[0]@ == words(memory_str@)[0]);
    assert(ws@[1]@ == words(memory_str@)[1]);
    match parse_u64_chars(&ws[0]) {
        None => None,
        Some(value) => {
            let unit_text = string_from_chars(ws[1].as_slice());
            let unit = to_lowercase(unit_text.as_str());
            let u = unit.as_str();
            if str_eq(u, "mb") {
                Some(value)
            } else if str_eq(u, "gb") {
                let m: u64 = value.wrapping_mul(1024);
                assert(m == ((value * 1024) % 0x1_0000_0000_0000_0000) as u64) by (bit_vector)
                    requires
                        m == value.wrapping_mul(1024),
                ;
                Some(m)
            } else if str_eq(u, "kb") {
                Some(value / 1024)
            } else {
                Some(value)
            }
        },
    }
}


// ---------------------------------------------------------------------------
// System reports read as JSON records
// ---------------------------------------------------------------------------

/// The view of an optional string.
pub open spec fn opt_text(o: Option<String>) -> Option<Seq<char>> {
    match o {
        Some(t) => Some(t@),
        None => None,
    }
}

fn clone_opt(o: &Option<String>) -> (r: Option<String>)
    ensures
        opt_text(r) == opt_text(*o),
{
    match o {
        Some(t) => Some(t.clone()),
        None => None,
    }
}

/// The fields of one video controller entry of the Windows system report
/// that are read, each present only where the entry holds it with the
/// expected JSON type (`Name`, `DriverVersion`, `AdapterRAM` in bytes,
/// `PNPDeviceID`).
#[derive(Debug)]
pub struct WindowsVideoController {
    pub name: Option<String>,
    pub driver_version: Option<String>,
    pub adapter_ram: Option<u64>,
    pub pnp_device_id: Option<String>,
}

/// A card from a Windows video controller entry: none without a name;
/// otherwise its memory in whole megabytes, its vendor by name, and no
/// usage readings.
pub fn parse_windows_gpu_data(data: &WindowsVideoController) -> (r: Option<GpuInfo>)
    ensures
        data.name is None <==> r is None,
        r matches Some(g) ==> {
            &&& Some(g.name@) == opt_text(data.name)
            &&& opt_text(g.driver_version) == opt_text(data.driver_version)
            &&& g.memory_total == match data.adapter_ram {
                Some(b) => Some(b / 1048576u64),
                None => None::<u64>,
            }
            &&& g.memory_used is None
            &&& g.temperature_text is None
            &&& g.utilization_text is None
            &&& g.vendor == vendor_of(g.name@)
            &&& opt_text(g.pci_id) == opt_text(data.pnp_device_id)
        },
{
    let name = match &data.name {
        Some(n) => n.clone(),
        None => return None,
    };
    let vendor = vendor_from_name(name.as_str());
    let memory_total = match data.adapter_ram {
        Some(b) => Some(b / (1024 * 1024)),
        None => None,
    };
    Some(GpuInfo {
        name,
        driver_version: clone_opt(&data.driver_version),
        memory_total,
        memory_used: None,
        temperature_text: None,
        utilization_text: None,
        vendor,
        pci_id: clone_opt(&data.pnp_device_id),
    })
}

/// The fields of one display entry of the macOS system report that are
/// read (`sppci_model`, `spdisplays_vram`), each present only where the
/// entry holds it as a string.
#[derive(Debug)]
pub struct MacDisplayEntry {
    pub model: Option<String>,
    pub vram: Option<String>,
}

/// A card from a macOS display entry: none without a model name; otherwise
/// its memory read from the VRAM text (`0 MB` where there is none) and its
/// vendor by name.
pub fn parse_macos_gpu_data(data: &MacDisplayEntry) -> (r: Option<GpuInfo>)
    ensures
        data.model is None <==> r is None,
        r matches Some(g) ==> {
            &&& Some(g.name@) == opt_text(data.model)
            &&& g.driver_version is None
            &&& g.memory_total == memory_megabytes(
                match data.vram {
                    Some(t) => t@,
                    None => "0 MB"@,
                },
            )
            &&& g.memory_used is None
            &&& g.temperature_text is None
            &&& g.utilization_text is None
            &&& g.vendor == vendor_of(g.name@)
            &&& g.pci_id is None
        },
{
    let name = match &data.model {
        Some(n) => n.clone(),
        None => return None,
    };
    let memory_total = match &data.vram {
        Some(t) => extract_memory_from_string(t.as_str()),
        None => extract_memory_from_string("0 MB"),
    };
    let vendor = vendor_from_name(name.as_str());
    Some(GpuInfo {
        name,
        driver_version: None,
        memory_total,
        memory_used: None,
        temperature_text: None,
        utilization_text: None,
        vendor,
        pci_id: None,
    })
}

/// The placeholder card reported when no platform tool found one.
pub fn detect_generic_gpus() -> (r: Vec<GpuInfo>)
    ensures
        r.len() == 1,
        r[0].name@ == "Generic Graphics Device"@,
        r[0].vendor == GpuVendor::Unknown,
        r[0].driver_version is None,
        r[0].memory_total is None,
        r[0].memory_used is None,
        r[0].temperature_text is None,
        r[0].utilization_text is None,
        r[0].pci_id is None,
{
    let mut r: Vec<GpuInfo> = Vec::new();
    r.push(GpuInfo {
        name: to_owned_string("Generic Graphics Device"),
        driver_version: None,
        memory_total: None,
        memory_used: None,
        temperature_text: None,
        utilization_text: None,
        vendor: GpuVendor::Unknown,
        pci_id: None,
    });
    r
}


/// Whether a card named `name` is listed in `gpus`.
pub open spec fn name_listed(gpus: Seq<GpuInfo>, name: Seq<char>) -> bool {
    exists|i: int| 0 <= i < gpus.len() && (#[trigger] gpus[i]).name@ == name
}

/// Whether no two cards of `gpus` have the same name.
pub open spec fn names_unique(gpus: Seq<GpuInfo>) -> bool {
    forall|i: int, j: int| 0 <= i < j < gpus.len() ==> (#[trigger] gpus[i]).name@ != (#[trigger] gpus[j]).name@
}

/// Adds a card to the list unless a card of the same name is in it already
/// (a card that two tools report is listed once); tells whether it was added.
pub fn add_gpu_unless_listed(gpus: &mut Vec<GpuInfo>, gpu: GpuInfo) -> (added: bool)
    ensures
        added == !name_listed(old(gpus)@, gpu.name@),
        added ==> final(gpus)@ == old(gpus)@.push(gpu),
        !added ==> final(gpus)@ == old(gpus)@,
        names_unique(old(gpus)@) ==> names_unique(final(gpus)@),
{
    let mut i: usize = 0;
    while i < gpus.len()
        invariant
            i <= gpus@.len(),
            gpus@ == old(gpus)@,
            forall|j: int| 0 <= j < i ==> (#[trigger] gpus@[j]).name@ != gpu.name@,
        decreases gpus@.len() - i,
    {
        if str_eq(gpus[i].name.as_str(), gpu.name.as_str()) {
            assert(gpus@[i as int].name@ == gpu.name@);
            return false;
        }
        i = i + 1;
    }
    gpus.push(gpu);
    true
}

/// The cards found, or the placeholder card where none was.
pub fn gpus_or_generic(gpus: Vec<GpuInfo>) -> (r: Vec<GpuInfo>)
    ensures
        gpus@.len() > 0 ==> r@ == gpus@,
        gpus@.len() == 0 ==> r.len() == 1 && r[0].name@ == "Generic Graphics Device"@
            && r[0].vendor == GpuVendor::Unknown,
{
    if gpus.len() == 0 {
        detect_generic_gpus()
    } else {
        gpus
    }
}

// ---------------------------------------------------------------------------
// nvidia-smi
// ---------------------------------------------------------------------------

/// The trimmed comma-separated fields of a line.
pub open spec fn csv_fields(line: Seq<char>) -> Seq<Seq<char>> {
    split_on(line, ',').map_values(|p: Seq<char>| trim(p))
}

/// Whether `g` is what an `nvidia-smi` line with fields `f` describes: name,
/// driver, total and used memory, temperature, utilization and PCI bus id.
pub open spec fn smi_card(f: Seq<Seq<char>>, g: GpuInfo) -> bool {
    &&& g.name@ == f[0]
    &&& g.driver_version matches Some(d) && d@ == f[1]
    &&& g.memory_total == parse_u64(f[2])
    &&& g.memory_used == parse_u64(f[3])
    &&& g.temperature_text matches Some(t) && t@ == f[4]
    &&& g.utilization_text matches Some(u) && u@ == f[5]
    &&& g.vendor == GpuVendor::Nvidia
    &&& g.pci_id matches Some(p) && p@ == f[6]
}

/// Reads one line of `nvidia-smi --format=csv,noheader,nounits` output; a
/// line with fewer than seven fields describes no card.
pub fn parse_nvidia_smi_line(line: &str) -> (r: Option<GpuInfo>)
    ensures
        csv_fields(line@).len() < 7 ==> r is None,
        csv_fields(line@).len() >= 7 ==> (r matches Some(g) && smi_card(csv_fields(line@), g)),
{
    let v = chars_of(line);
    let pieces = split_on_char(&v, ',');
    let ghost pv = pieces@.map_values(|p: Vec<char>| p@);
    assert(pv.len() == pieces@.len());
    if pieces.len() < 7 {
        assert(csv_fields(line@).len() == pv.len());
        return None;
    }
    let mut fields: Vec<Vec<char>> = Vec::new();
    let mut i: usize = 0;
    while i < 7
        invariant
            i <= 7,
            7 <= pieces@.len(),
            pv == pieces@.map_values(|p: Vec<char>| p@),
            fields@.len() == i,
            forall|k: int| 0 <= k < i ==> (#[trigger] fields@[k])@ == trim(pv[k]),
        decreases 7 - i,
    {
        let t = trim_chars(pieces[i].as_slice());
        fields.push(t);
        i = i + 1;
    }
    let ghost f = csv_fields(line@);
    assert(forall|k: int| 0 <= k < 7 ==> f[k] == trim(pv[k]));
    let memory_total = parse_u64_chars(&fields[2]);
    let memory_used = parse_u64_chars(&fields[3]);
    Some(
        GpuInfo {
            name: string_from_chars(fields[0].as_slice()),
            driver_version: Some(string_from_chars(fields[1].as_slice())),
            memory_total,
            memory_used,
            temperature_text: Some(string_from_chars(fields[4].as_slice())),
            utilization_text: Some(string_from_chars(fields[5].as_slice())),
            vendor: GpuVendor::Nvidia,
            pci_id: Some(string_from_chars(fields[6].as_slice())),
        },
    )
}

// ---------------------------------------------------------------------------
// lspci
// ---------------------------------------------------------------------------

/// Whether `i` is the first position of `": "` in `s`.
pub open spec fn is_first_separator(s: Seq<char>, i: int) -> bool {
    &&& 0 <= i && i + 2 <= s.len()
    &&& s[i] == ':' && s[i + 1] == ' '
    &&& forall|q: int| 0 <= q < i ==> !(#[trigger] s[q] == ':' && s[q + 1] == ' ')
}

/// Whether `g` is what an `lspci` line describes: the text after the first
/// `": "` names the card, and the first word before it is the PCI slot.
pub open spec fn lspci_card(line: Seq<char>, g: GpuInfo) -> bool {
    exists|i: int|
        #![trigger is_first_separator(line, i)]
        is_first_separator(line, i) && words(line.take(i)).len() > 0 && g.name@ == line.skip(i + 2)
            && g.vendor == vendor_of(g.name@) && (g.pci_id matches Some(p) && p@ == words(
            line.take(i),
        )[0]) && g.driver_version is None && g.memory_total is None && g.memory_used is None
            && g.temperature_text is None && g.utilization_text is None
}

/// Whether an `lspci` line describes a card: it has a `": "` with a word before
/// its first occurrence.
pub open spec fn lspci_readable(line: Seq<char>) -> bool {
    exists|i: int|
        #![trigger is_first_separator(line, i)]
        is_first_separator(line, i) && words(line.take(i)).len() > 0
}

/// Reads one line of `lspci` output such as
/// `00:02.0 VGA compatible controller: Intel Corporation ...`.
pub fn parse_lspci_line(line: &str) -> (r: Option<GpuInfo>)
    ensures
        match r {
            Some(g) => lspci_readable(line@) && lspci_card(line@, g),
            None => !lspci_readable(line@),
        },
{
    let v = chars_of(line);
    let i = match find_separator(&v) {
        Some(i) => i,
        None => {
            proof {
                if lspci_readable(line@) {
                    let j = choose|j: int| #![trigger is_first_separator(line@, j)] is_first_separator(line@, j)
                        && words(line@.take(j)).len() > 0;
                    assert(!(v@[j] == ':' && v@[j + 1] == ' '));
                }
            }
            return None;
        },
    };
    assert(is_first_separator(line@, i as int));
    let mut before: Vec<char> = Vec::new();
    let mut k: usize = 0;
    while k < i
        invariant
            k <= i,
            i + 2 <= v.len(),
            before@ == v@.take(k as int),
        decreases i - k,
    {
        before.push(v[k]);
        assert(v@.take(k + 1) =~= v@.take(k as int).push(v@[k as int]));
        k = k + 1;
    }
    let mut after: Vec<char> = Vec::new();
    let mut k2: usize = i + 2;
    while k2 < v.len()
        invariant
            i + 2 <= k2 <= v.len(),
            after@ == v@.subrange(i + 2, k2 as int),
        decreases v.len() - k2,
    {
        after.push(v[k2]);
        assert(v@.subrange(i + 2, k2 + 1) =~= v@.subrange(i + 2, k2 as int).push(v@[k2 as int]));
        k2 = k2 + 1;
    }
    assert(after@ =~= line@.skip(i + 2));
    let slot_words = split_whitespace_chars(before.as_slice());
    assert(slot_words@.map_values(|w: Vec<char>| w@) == words(line@.take(i as int)));
    proof {
        lemma_first_separator_unique(line@, i as int);
    }
    if slot_words.len() == 0 {
        return None;
    }
    assert(slot_words@[0]@ == words(line@.take(i as int))[0]);
    let name = string_from_chars(after.as_slice());
    let vendor = vendor_from_name(name.as_str());
    let g = GpuInfo {
        name,
        driver_version: None,
        memory_total: None,
        memory_used: None,
        temperature_text: None,
        utilization_text: None,
        vendor,
        pci_id: Some(string_from_chars(slot_words[0].as_slice())),
    };
    assert(lspci_card(line@, g));
    Some(g)
}

/// The first position of `": "` in `v`.
fn find_separator(v: &Vec<char>) -> (r: Option<usize>)
    ensures
        match r {
            Some(i) => is_first_separator(v@, i as int),
            None => forall|q: int| 0 <= q && q + 1 < v@.len() ==> !(#[trigger] v@[q] == ':' && v@[q + 1] == ' '),
        },
{
    if v.len() < 2 {
        return None;
    }
    let mut i: usize = 0;
    while i < v.len() - 1
        invariant
            v.len() >= 2,
            i <= v.len() - 1,
            forall|q: int| 0 <= q < i ==> !(#[trigger] v@[q] == ':' && v@[q + 1] == ' '),
        decreases v.len() - i,
    {
        if v[i] == ':' && v[i + 1] == ' ' {
            return Some(i);
        }
        i = i + 1;
    }
    None
}

proof fn lemma_first_separator_unique(s: Seq<char>, i: int)
    requires
        is_first_separator(s, i),
    ensures
        forall|j: int| #![trigger is_first_separator(s, j)] is_first_separator(s, j) ==> j == i,
{
    assert forall|j: int| #![trigger is_first_separator(s, j)] is_first_separator(s, j) implies j == i by {
        if j < i {
            assert(!(s[j] == ':' && s[j + 1] == ' '));
        } else if j > i {
            assert(!(s[i] == ':' && s[i + 1] == ' '));
        }
    }
}

/// A piece without one trailing carriage return.
pub open spec fn strip_cr(p: Seq<char>) -> Seq<char> {
    if p.len() > 0 && p.last() == '\r' {
        p.drop_last()
    } else {
        p
    }
}

/// The lines of `s` as `str::lines` gives them: split at each `\n`, a `\r`
/// before a `\n` dropped, and no empty line after a final `\n`.
pub open spec fn lines_of(s: Seq<char>) -> Seq<Seq<char>> {
    let ps = split_on(s, '\n');
    let body = ps.drop_last().map_values(|p: Seq<char>| strip_cr(p));
    if ps.last().len() == 0 {
        body
    } else {
        body.push(ps.last())
    }
}

/// Whether an `lspci` line is about a display device.
pub open spec fn is_display_line(l: Seq<char>) -> bool {
    let low = lowercase(l);
    has_substring(low, "vga compatible controller"@) || has_substring(low, "3d controller"@)
        || has_substring(low, "display controller"@)
}

/// The lines that describe a display card.
pub open spec fn card_lines(ls: Seq<Seq<char>>) -> Seq<Seq<char>> {
    ls.filter(|l: Seq<char>| is_display_line(l) && lspci_readable(l))
}

fn lines_chars(v: &Vec<char>) -> (r: Vec<Vec<char>>)
    ensures
        r@.map_values(|p: Vec<char>| p@) == lines_of(v@),
{
    let pieces = split_on_char(v, '\n');
    let ghost pv = pieces@.map_values(|p: Vec<char>| p@);
    proof {
        lemma_split_on_nonempty(v@, '\n');
    }
    let n = pieces.len();
    let mut r: Vec<Vec<char>> = Vec::new();
    let mut i: usize = 0;
    while i + 1 < n
        invariant
            n == pieces@.len() == pv.len(),
            n > 0,
            i < n,
            pv == pieces@.map_values(|p: Vec<char>| p@),
            r@.map_values(|p: Vec<char>| p@) == pv.take(i as int).map_values(
                |p: Seq<char>| strip_cr(p),
            ),
        decreases n - i,
    {
        let p = &pieces[i];
        let mut q: Vec<char> = Vec::new();
        let m = if p.len() > 0 && p[p.len() - 1] == '\r' {
            p.len() - 1
        } else {
            p.len()
        };
        let mut k: usize = 0;
        while k < m
            invariant
                k <= m <= p.len(),
                q@ == p@.take(k as int),
            decreases m - k,
        {
            q.push(p[k]);
            assert(p@.take(k + 1) =~= p@.take(k as int).push(p@[k as int]));
            k = k + 1;
        }
        assert(q@ =~= strip_cr(pv[i as int]));
        let ghost before = r@.map_values(|p: Vec<char>| p@);
        r.push(q);
        assert(r@.map_values(|p: Vec<char>| p@) =~= before.push(strip_cr(pv[i as int])));
        assert(pv.take(i + 1).map_values(|p: Seq<char>| strip_cr(p)) =~= pv.take(i as int).map_values(
            |p: Seq<char>| strip_cr(p),
        ).push(strip_cr(pv[i as int])));
        i = i + 1;
    }
    assert(pv.take(i as int) =~= pv.drop_last());
    let last = &pieces[n - 1];
    if last.len() > 0 {
        let mut q: Vec<char> = Vec::new();
        let mut k: usize = 0;
        while k < last.len()
            invariant
                k <= last.len(),
                q@ == last@.take(k as int),
            decreases last.len() - k,
        {
            q.push(last[k]);
            assert(last@.take(k + 1) =~= last@.take(k as int).push(last@[k as int]));
            k = k + 1;
        }
        assert(q@ =~= last@);
        let ghost before = r@.map_values(|p: Vec<char>| p@);
        r.push(q);
        assert(r@.map_values(|p: Vec<char>| p@) =~= before.push(pv.last()));
    }
    r
}

/// The display cards described in `lspci` output, in the order of their lines.
pub fn parse_lspci_output(output: &str) -> (r: Vec<GpuInfo>)
    ensures
        r@.len() == card_lines(lines_of(output@)).len(),
        forall|k: int| 0 <= k < r@.len() ==> lspci_card(card_lines(lines_of(output@))[k], #[trigger] r@[k]),
{
    let v = chars_of(output);
    let ls = lines_chars(&v);
    let ghost lv = ls@.map_values(|p: Vec<char>| p@);
    let ghost f = |l: Seq<char>| is_display_line(l) && lspci_readable(l);
    let mut r: Vec<GpuInfo> = Vec::new();
    let mut i: usize = 0;
    while i < ls.len()
        invariant
            i <= ls.len(),
            lv == ls@.map_values(|p: Vec<char>| p@),
            f == (|l: Seq<char>| is_display_line(l) && lspci_readable(l)),
            r@.len() == lv.take(i as int).filter(f).len(),
            forall|k: int| 0 <= k < r@.len() ==> lspci_card(lv.take(i as int).filter(f)[k], #[trigger] r@[k]),
        decreases ls.len() - i,
    {
        proof {
            reveal_with_fuel(Seq::filter, 1);
            assert(lv.take(i + 1).drop_last() =~= lv.take(i as int));
            assert(lv.take(i + 1).last() == lv[i as int]);
        }
        let line = string_from_chars(ls[i].as_slice());
        let low = to_lowercase(line.as_str());
        let l = low.as_str();
        let display = contains_str(l, "vga compatible controller") || contains_str(l, "3d controller")
            || contains_str(l, "display controller");
        if display {
            match parse_lspci_line(line.as_str()) {
                Some(g) => {
                    let ghost before = r@;
                    r.push(g);
                    assert(f(lv[i as int]));
                    assert forall|k: int| 0 <= k < r@.len() implies lspci_card(
                        lv.take(i + 1).filter(f)[k],
                        #[trigger] r@[k],
                    ) by {
                        if k < before.len() {
                            assert(r@[k] == before[k]);
                        }
                    }
                },
                None => {
                    assert(!f(lv[i as int]));
                },
            }
        } else {
            assert(!f(lv[i as int]));
        }
        i = i + 1;
    }
    assert(lv.take(i as int) =~= lv);
    r
}

} // verus!
